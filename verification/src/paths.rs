//! Paths as the engine needs them: whether a mount point lies under a root,
//! and the paths that are looked at or mounted for a nested mount point.
//!
//! Paths are compared by their components, as the system compares them:
//! repeated and trailing slashes do not count, nor does a `.` anywhere but
//! at the very beginning; `..` is a component like any other.

use vstd::prelude::*;
use crate::text::{
    chars_of,
    cut_first,
    lemma_split_close,
    lemma_split_extend,
    lemma_split_push,
    matches_at,
    remove_first,
    split,
    strip_leading,
    trim_leading,
};

verus! {

/// The component that stands for the root directory. No other component can
/// look like it, since none holds a slash.
pub open spec fn root_mark() -> Seq<char> {
    seq!['/']
}

/// The path begins at the root directory.
pub open spec fn rooted(path: Seq<char>) -> bool {
    path.len() > 0 && path[0] == '/'
}

/// The field at position `index` among the slash-separated fields of a path
/// is a component: it is not empty, and it is not `.` unless it is the very
/// first field.
pub open spec fn counts(field: Seq<char>, index: int) -> bool {
    field.len() > 0 && (field != seq!['.'] || index == 0)
}

/// The components among `fields`, behind the root mark where the path is
/// rooted.
pub open spec fn named(fields: Seq<Seq<char>>, rooted: bool) -> Seq<Seq<char>>
    decreases fields.len(),
{
    if fields.len() == 0 {
        if rooted {
            seq![root_mark()]
        } else {
            Seq::empty()
        }
    } else {
        let front = named(fields.drop_last(), rooted);
        if counts(fields.last(), fields.len() - 1) {
            front.push(fields.last())
        } else {
            front
        }
    }
}

/// The components of a path.
pub open spec fn components(path: Seq<char>) -> Seq<Seq<char>> {
    named(split(path, '/'), rooted(path))
}

/// `mount_point` lies under `root` and is not `root` itself: the components
/// of `root` are the first components of `mount_point`, which has more.
pub open spec fn nested_under(mount_point: Seq<char>, root: Seq<char>) -> bool {
    components(root).is_prefix_of(components(mount_point)) && components(root) != components(
        mount_point,
    )
}

/// The views of a list of character vectors, vector by vector.
pub open spec fn texts(v: Seq<Vec<char>>) -> Seq<Seq<char>> {
    Seq::new(v.len(), |i: int| v[i]@)
}

/// Is `field`, the field at position `index`, a component?
fn is_component(field: &Vec<char>, index: usize) -> (r: bool)
    ensures
        r == counts(field@, index as int),
{
    if field.len() == 0 {
        return false;
    }
    let is_dot = field.len() == 1 && field[0] == '.';
    proof {
        if is_dot {
            assert(field@ =~= seq!['.']);
        }
    }
    !is_dot || index == 0
}

/// The components of `path`.
pub fn path_components(path: &str) -> (out: Vec<Vec<char>>)
    ensures
        texts(out@) == components(path@),
{
    let chars = chars_of(path);
    let mut out: Vec<Vec<char>> = Vec::new();
    if chars.len() > 0 && chars[0] == '/' {
        let mut mark: Vec<char> = Vec::new();
        mark.push('/');
        out.push(mark);
    }
    let mut current: Vec<char> = Vec::new();
    let mut index: usize = 0;
    let ghost mut done: Seq<Seq<char>> = Seq::empty();
    let mut i: usize = 0;
    proof {
        assert(path@.take(0) =~= Seq::<char>::empty());
    }
    while i < chars.len()
        invariant
            0 <= i <= chars.len(),
            chars@ == path@,
            index == done.len(),
            index <= i,
            split(path@.take(i as int), '/') == done.push(current@),
            texts(out@) == named(done, rooted(path@)),
        decreases chars.len() - i,
    {
        proof {
            assert(path@.take(i as int + 1) == path@.take(i as int).push(path@[i as int]));
            assert(done.push(current@).drop_last() == done);
        }
        if chars[i] == '/' {
            proof {
                lemma_split_close(path@.take(i as int), '/');
            }
            if is_component(&current, index) {
                out.push(current);
            }
            proof {
                done = done.push(current@);
            }
            current = Vec::new();
            index += 1;
        } else {
            proof {
                lemma_split_extend(path@.take(i as int), path@[i as int], '/');
            }
            current.push(chars[i]);
        }
        i += 1;
    }
    proof {
        assert(path@.take(i as int) == path@);
        assert(done.push(current@).drop_last() == done);
    }
    if is_component(&current, index) {
        out.push(current);
    }
    out
}

/// Is `mount_point` a strict descendant of `root`?
pub fn is_nested(mount_point: &str, root: &str) -> (r: bool)
    ensures
        r == nested_under(mount_point@, root@),
{
    let below = path_components(mount_point);
    let above = path_components(root);
    if above.len() >= below.len() {
        proof {
            if components(root@).is_prefix_of(components(mount_point@)) {
                assert(components(root@) =~= components(mount_point@));
            }
        }
        return false;
    }
    let mut k: usize = 0;
    while k < above.len()
        invariant
            0 <= k <= above.len(),
            above.len() < below.len(),
            texts(above@) == components(root@),
            texts(below@) == components(mount_point@),
            forall|j: int| 0 <= j < k ==> texts(above@)[j] == texts(below@)[j],
        decreases above.len() - k,
    {
        let same = above[k].len() == below[k].len() && matches_at(&below[k], &above[k], 0);
        proof {
            if above@[k as int]@.len() == below@[k as int]@.len() {
                assert(below@[k as int]@.subrange(0, above@[k as int]@.len() as int)
                    == below@[k as int]@);
            }
        }
        if !same {
            proof {
                if components(root@).is_prefix_of(components(mount_point@)) {
                    assert(components(mount_point@).subrange(0, components(root@).len() as int)[k as int]
                        == components(mount_point@)[k as int]);
                }
            }
            return false;
        }
        k += 1;
    }
    proof {
        assert(components(root@) =~= components(mount_point@).subrange(
            0,
            components(root@).len() as int,
        ));
    }
    true
}

/// Nothing lies under itself.
pub proof fn lemma_nested_irreflexive(path: Seq<char>)
    ensures
        !nested_under(path, path),
{
}

/// What lies under a path lies under everything that the path lies under.
pub proof fn lemma_nested_transitive(a: Seq<char>, b: Seq<char>, c: Seq<char>)
    requires
        nested_under(a, b),
        nested_under(b, c),
    ensures
        nested_under(a, c),
{
    assert(components(c) =~= components(a).subrange(0, components(c).len() as int));
}

/// An entry of a directory lies under the directory: the path of the
/// directory, a slash and a name that is a component has the components of
/// the directory followed by the name.
pub proof fn lemma_entry_is_nested(dir: Seq<char>, name: Seq<char>)
    requires
        dir.len() > 0,
        name.len() > 0,
        name != seq!['.'],
        !name.contains('/'),
    ensures
        components(dir + seq!['/'] + name) == components(dir).push(name),
        nested_under(dir + seq!['/'] + name, dir),
{
    let entry = dir + seq!['/'] + name;
    lemma_split_push(dir, '/', name);
    assert(split(entry, '/').drop_last() == split(dir, '/'));
}

/// `base` extended by `relative`, whose leading slashes do not count: one
/// slash is put between the two unless `base` is empty or ends in one.
pub open spec fn joined(base: Seq<char>, relative: Seq<char>) -> Seq<char> {
    let tail = trim_leading(relative, '/');
    if base.len() > 0 && base.last() != '/' {
        base + "/"@ + tail
    } else {
        base + tail
    }
}

/// The path of a nested mount point relative to the root of its partition:
/// the mount point with the first occurrence of the root cut out.
pub open spec fn relative_of(mount_point: Seq<char>, root: Seq<char>) -> Seq<char> {
    remove_first(mount_point, root)
}

/// The stock content at a relative path, seen from the partition's root
/// directory: `.` and the relative path.
pub open spec fn stock_of(relative: Seq<char>) -> Seq<char> {
    "."@ + relative
}

/// For a mount point that begins with the root as written, the relative
/// path is what follows the root, and the stock path is that behind a `.`.
pub proof fn lemma_relative_of_prefix(root: Seq<char>, rest: Seq<char>)
    ensures
        relative_of(root + rest, root) == rest,
        stock_of(relative_of(root + rest, root)) == "."@ + rest,
{
    let mount_point = root + rest;
    assert(mount_point.subrange(0, root.len() as int) == root);
    assert(mount_point.subrange(0, 0) + mount_point.subrange(
        root.len() as int,
        mount_point.len() as int,
    ) == rest);
}

/// The path below the module root `base` that corresponds to `relative`.
pub fn child_path(base: &str, relative: &str) -> (out: String)
    ensures
        out@ == joined(base@, relative@),
{
    let tail = strip_leading(relative, '/');
    let n = base.unicode_len();
    let need_sep = n > 0 && base.get_char(n - 1) != '/';
    let out = String::from_str(base);
    if need_sep {
        out.concat("/").concat(tail)
    } else {
        out.concat(tail)
    }
}

/// The path of `mount_point` relative to `root`.
pub fn relative_path(mount_point: &str, root: &str) -> (out: String)
    ensures
        out@ == relative_of(mount_point@, root@),
{
    cut_first(mount_point, root)
}

/// The path under which the stock content at `relative` is found once the
/// partition's root directory is the working directory.
pub fn stock_path(relative: &str) -> (out: String)
    ensures
        out@ == stock_of(relative@),
{
    String::from_str(".").concat(relative)
}

} // verus!
