//! The overlay assembler: from an ordered list of layers to the requests that
//! mount them, the modern way first and the classic way as fallback.

use vstd::prelude::*;
use crate::defs::OVERLAY_SOURCE;
use crate::plan::{option_views, request_views, MountPlan, MountRequest, PlanModel, RequestModel};
use crate::text::{
    clone_strings,
    join,
    join_strings,
    key_value,
    lemma_concat_lacks,
    lemma_join_lacks,
    lemma_key_value,
    lemma_split_join,
    none_holds,
    split,
    views,
};

verus! {

/// A directory named for the writable side of an overlay, with what a look
/// at the disk said of it.
#[derive(Debug, Clone, PartialEq, Eq)]
pub struct StagedDir {
    pub path: String,
    pub exists: bool,
}

/// The path of a staged directory that is named and exists.
pub open spec fn usable(dir: Option<StagedDir>) -> Option<Seq<char>> {
    match dir {
        Some(d) => if d.exists {
            Some(d.path@)
        } else {
            None
        },
        None => None,
    }
}

/// What one overlay mount is made of: its layers, its writable side and the
/// place where it goes.
#[derive(Debug, Clone, PartialEq, Eq)]
pub struct OverlaySpec {
    /// The module layers, the one listed first shadowing the later ones.
    pub lowerdirs: Vec<String>,
    /// The stock directory: the floor, shadowed by every module layer.
    pub lowest: String,
    pub upperdir: Option<String>,
    pub workdir: Option<String>,
    pub destination: String,
}

pub struct OverlayModel {
    pub lowerdirs: Seq<Seq<char>>,
    pub lowest: Seq<char>,
    pub upperdir: Option<Seq<char>>,
    pub workdir: Option<Seq<char>>,
    pub destination: Seq<char>,
}

pub open spec fn option_view(o: Option<String>) -> Option<Seq<char>> {
    match o {
        Some(s) => Some(s@),
        None => None,
    }
}

impl View for OverlaySpec {
    type V = OverlayModel;

    open spec fn view(&self) -> OverlayModel {
        OverlayModel {
            lowerdirs: views(self.lowerdirs@),
            lowest: self.lowest@,
            upperdir: option_view(self.upperdir),
            workdir: option_view(self.workdir),
            destination: self.destination@,
        }
    }
}

impl OverlayModel {
    /// The upper and the work directory go together or not at all.
    pub open spec fn wf(self) -> bool {
        self.upperdir is Some <==> self.workdir is Some
    }

    /// The layers in the order of their priority: the module layers as
    /// listed, the stock directory last.
    pub open spec fn layers(self) -> Seq<Seq<char>> {
        self.lowerdirs.push(self.lowest)
    }

    /// The value of the `lowerdir` option: the layers, colon-joined.
    pub open spec fn lowerdir(self) -> Seq<char> {
        join(self.layers(), ":"@)
    }

    /// The writable pair, present only where both directories are.
    pub open spec fn writable(self) -> Option<(Seq<char>, Seq<char>)> {
        match (self.upperdir, self.workdir) {
            (Some(u), Some(w)) => Some((u, w)),
            _ => None,
        }
    }

    /// The configuration of the overlay, key by key, as both ways of
    /// mounting pass it on.
    pub open spec fn fields(self) -> Seq<(Seq<char>, Seq<char>)> {
        match self.writable() {
            Some((u, w)) => seq![("lowerdir"@, self.lowerdir()), ("upperdir"@, u), ("workdir"@, w)],
            None => seq![("lowerdir"@, self.lowerdir())],
        }
    }

    /// The modern request: the fields, then the source, each set as a string
    /// of the file system context.
    pub open spec fn modern(self) -> RequestModel {
        RequestModel::ModernOverlay {
            options: self.fields().push(("source"@, OVERLAY_SOURCE@)),
            destination: self.destination,
        }
    }

    /// The classic request: the fields as one option string, the source as
    /// the mount's source.
    pub open spec fn legacy(self) -> RequestModel {
        RequestModel::LegacyOverlay {
            source: OVERLAY_SOURCE@,
            destination: self.destination,
            data: option_string(self.fields()),
        }
    }
}

/// Key, `=`, value for each field.
pub open spec fn rendered(fields: Seq<(Seq<char>, Seq<char>)>) -> Seq<Seq<char>> {
    Seq::new(fields.len(), |i: int| fields[i].0 + "="@ + fields[i].1)
}

/// The option string of the classic mount call: the rendered fields,
/// comma-joined.
pub open spec fn option_string(fields: Seq<(Seq<char>, Seq<char>)>) -> Seq<char> {
    join(rendered(fields), ","@)
}

/// What the classic mount call makes of an option string: its
/// comma-separated fields, each taken apart at its first `=`.
pub open spec fn parse_options(data: Seq<char>) -> Seq<(Seq<char>, Seq<char>)> {
    Seq::new(split(data, ',').len(), |i: int| key_value(split(data, ',')[i]))
}

/// The overlay of `lowerdirs` over `lowest` at `destination`, with the
/// writable pair only where both of its directories are there.
pub open spec fn assembled(
    lowerdirs: Seq<Seq<char>>,
    lowest: Seq<char>,
    upperdir: Option<Seq<char>>,
    workdir: Option<Seq<char>>,
    destination: Seq<char>,
) -> OverlayModel {
    let both = upperdir is Some && workdir is Some;
    OverlayModel {
        lowerdirs,
        lowest,
        upperdir: if both {
            upperdir
        } else {
            None
        },
        workdir: if both {
            workdir
        } else {
            None
        },
        destination,
    }
}

/// The layer that supplies a name to the mounted overlay, given which layers
/// hold it (`holds`, in the order of priority): the first that does.
pub open spec fn supplier(holds: Seq<bool>) -> Option<int>
    decreases holds.len(),
{
    if holds.len() == 0 {
        None
    } else if holds[0] {
        Some(0)
    } else {
        match supplier(holds.drop_first()) {
            Some(i) => Some(i + 1),
            None => None,
        }
    }
}

/// The plan for an overlay: the modern request, then the classic one.
pub open spec fn overlay_plan(model: OverlayModel, hide: bool) -> PlanModel {
    PlanModel {
        requests: seq![model.modern(), model.legacy()],
        destination: model.destination,
        hide,
    }
}

/// The plan for a bind mount: the one request.
pub open spec fn bind_plan(from: Seq<char>, to: Seq<char>, hide: bool) -> PlanModel {
    PlanModel { requests: seq![RequestModel::Bind { from, to }], destination: to, hide }
}

impl OverlaySpec {
    /// Puts the description of an overlay together. A writable directory
    /// that was not named or does not exist is dropped, and its partner with
    /// it.
    pub fn new(
        lower_dirs: &Vec<String>,
        lowest: &str,
        upperdir: Option<StagedDir>,
        workdir: Option<StagedDir>,
        dest: &str,
    ) -> (spec: OverlaySpec)
        ensures
            spec@.wf(),
            spec@ == assembled(
                views(lower_dirs@),
                lowest@,
                usable(upperdir),
                usable(workdir),
                dest@,
            ),
    {
        let (upper, work) = match (upperdir, workdir) {
            (Some(u), Some(w)) => {
                if u.exists && w.exists {
                    (Some(u.path), Some(w.path))
                } else {
                    (None, None)
                }
            },
            _ => (None, None),
        };
        OverlaySpec {
            lowerdirs: clone_strings(lower_dirs),
            lowest: String::from_str(lowest),
            upperdir: upper,
            workdir: work,
            destination: String::from_str(dest),
        }
    }

    /// The value of the `lowerdir` option: the module layers as listed, then
    /// the stock directory, colon-joined.
    pub fn lowerdir_config(&self) -> (out: String)
        ensures
            out@ == self@.lowerdir(),
    {
        let mut layers = clone_strings(&self.lowerdirs);
        layers.push(self.lowest.clone());
        proof {
            assert(views(layers@) =~= self@.layers());
        }
        join_strings(&layers, ":")
    }

    /// The configuration, key by key.
    pub fn config_fields(&self) -> (out: Vec<(String, String)>)
        ensures
            option_views(out@) == self@.fields(),
    {
        let mut out: Vec<(String, String)> = Vec::new();
        out.push((String::from_str("lowerdir"), self.lowerdir_config()));
        match (&self.upperdir, &self.workdir) {
            (Some(u), Some(w)) => {
                out.push((String::from_str("upperdir"), u.clone()));
                out.push((String::from_str("workdir"), w.clone()));
            },
            _ => {},
        }
        out
    }

    /// The request of the modern way of mounting.
    pub fn modern_request(&self) -> (r: MountRequest)
        ensures
            r@ == self@.modern(),
    {
        let mut options = self.config_fields();
        options.push((String::from_str("source"), String::from_str(OVERLAY_SOURCE)));
        proof {
            assert(option_views(options@) =~= self@.fields().push(("source"@, OVERLAY_SOURCE@)));
        }
        MountRequest::ModernOverlay { options, destination: self.destination.clone() }
    }

    /// The request of the classic way of mounting.
    pub fn legacy_request(&self) -> (r: MountRequest)
        ensures
            r@ == self@.legacy(),
    {
        let fields = self.config_fields();
        let mut texts: Vec<String> = Vec::new();
        let mut i: usize = 0;
        while i < fields.len()
            invariant
                0 <= i <= fields.len(),
                texts@.len() == i,
                forall|j: int|
                    0 <= j < i ==> texts@[j]@ == fields@[j].0@ + "="@ + fields@[j].1@,
            decreases fields.len() - i,
        {
            let text = String::from_str(fields[i].0.as_str()).concat("=").concat(
                fields[i].1.as_str(),
            );
            texts.push(text);
            i += 1;
        }
        proof {
            assert(views(texts@) =~= rendered(option_views(fields@)));
        }
        MountRequest::LegacyOverlay {
            source: String::from_str(OVERLAY_SOURCE),
            destination: self.destination.clone(),
            data: join_strings(&texts, ","),
        }
    }
}

/// Plans the overlay of `lower_dirs` over `lowest` at `dest`: the modern
/// request first, the classic one as fallback, both made from the same
/// description. The writable pair is used only where both directories are
/// named and exist. Unless `disable_umount` is set, the destination is
/// registered for hiding once mounted.
pub fn mount_overlayfs(
    lower_dirs: &Vec<String>,
    lowest: &str,
    upperdir: Option<StagedDir>,
    workdir: Option<StagedDir>,
    dest: &str,
    disable_umount: bool,
) -> (plan: MountPlan)
    ensures
        plan@ == overlay_plan(
            assembled(views(lower_dirs@), lowest@, usable(upperdir), usable(workdir), dest@),
            !disable_umount,
        ),
{
    let spec = OverlaySpec::new(lower_dirs, lowest, upperdir, workdir, dest);
    let mut requests: Vec<MountRequest> = Vec::new();
    requests.push(spec.modern_request());
    requests.push(spec.legacy_request());
    proof {
        assert(request_views(requests@) =~= seq![spec@.modern(), spec@.legacy()]);
    }
    MountPlan { requests, destination: String::from_str(dest), hide: !disable_umount }
}

/// Plans the bind mount of the tree at `from` onto `to`. Unless
/// `disable_umount` is set, `to` is registered for hiding once mounted.
pub fn bind_mount(from: &str, to: &str, disable_umount: bool) -> (plan: MountPlan)
    ensures
        plan@ == bind_plan(from@, to@, !disable_umount),
{
    let mut requests: Vec<MountRequest> = Vec::new();
    requests.push(MountRequest::Bind { from: String::from_str(from), to: String::from_str(to) });
    proof {
        assert(request_views(requests@) =~= seq![RequestModel::Bind { from: from@, to: to@ }]);
    }
    MountPlan { requests, destination: String::from_str(to), hide: !disable_umount }
}

/// The order of priority can be read off the `lowerdir` option: where no
/// layer's path holds a colon, its colon-separated fields are the module
/// layers as listed, followed by the stock directory.
pub proof fn lemma_layer_order(model: OverlayModel)
    requires
        none_holds(model.layers(), ':'),
    ensures
        split(model.lowerdir(), ':') == model.lowerdirs.push(model.lowest),
{
    reveal_strlit(":");
    assert(":"@ == seq![':']);
    lemma_split_join(model.layers(), ':');
}

/// First listed wins: a name is supplied by the first layer that holds it,
/// and by no layer where none holds it.
pub proof fn lemma_first_listed_wins(holds: Seq<bool>)
    ensures
        match supplier(holds) {
            Some(i) => 0 <= i < holds.len() && holds[i] && forall|j: int|
                0 <= j < i ==> !holds[j],
            None => forall|j: int| 0 <= j < holds.len() ==> !holds[j],
        },
    decreases holds.len(),
{
    if holds.len() > 0 && !holds[0] {
        let rest = holds.drop_first();
        lemma_first_listed_wins(rest);
        match supplier(rest) {
            Some(i) => {
                assert forall|j: int| 0 <= j < i + 1 implies !holds[j] by {
                    if j > 0 {
                        assert(rest[j - 1] == holds[j]);
                    }
                }
            },
            None => {
                assert forall|j: int| 0 <= j < holds.len() implies !holds[j] by {
                    if j > 0 {
                        assert(rest[j - 1] == holds[j]);
                    }
                }
            },
        }
    }
}

/// The order of priority among the layers of `model`, with one flag per
/// layer saying whether it holds a name: a layer that holds the name hides
/// every layer listed after it; the layer listed first supplies whatever it
/// holds; and the stock directory, the floor, supplies exactly the names
/// that it holds and no module layer holds.
pub proof fn lemma_priority_ordering(model: OverlayModel, holds: Seq<bool>)
    requires
        holds.len() == model.layers().len(),
    ensures
        forall|a: int, b: int| 0 <= a < b < holds.len() && holds[a] ==> supplier(holds) != Some(b),
        holds[0] ==> supplier(holds) == Some(0int),
        supplier(holds) == Some(model.lowerdirs.len() as int) <==> holds.last() && forall|i: int|
            0 <= i < model.lowerdirs.len() ==> !holds[i],
{
    lemma_first_listed_wins(holds);
}

/// The fallback asks for the same overlay as the modern way. Where no path
/// that is passed on holds a comma, the option string of the classic
/// request, read as the mount call reads it, gives back the very fields that
/// the modern request sets, in the same order; its source is the modern
/// request's `source` option and both name the same destination.
pub proof fn lemma_fallback_equivalence(model: OverlayModel)
    requires
        none_holds(model.layers(), ','),
        model.writable() matches Some((u, w)) ==> !u.contains(',') && !w.contains(','),
    ensures
        parse_options(option_string(model.fields())) == model.fields(),
        model.legacy() == (RequestModel::LegacyOverlay {
            source: OVERLAY_SOURCE@,
            destination: model.destination,
            data: option_string(model.fields()),
        }),
        model.modern() == (RequestModel::ModernOverlay {
            options: parse_options(option_string(model.fields())).push(
                ("source"@, OVERLAY_SOURCE@),
            ),
            destination: model.destination,
        }),
{
    reveal_strlit(":");
    reveal_strlit(",");
    reveal_strlit("=");
    reveal_strlit("lowerdir");
    reveal_strlit("upperdir");
    reveal_strlit("workdir");
    let fields = model.fields();
    let texts = rendered(fields);
    assert(","@ == seq![',']);
    assert("="@ == seq!['=']);
    lemma_join_lacks(model.layers(), ":"@, ',');
    assert forall|i: int| 0 <= i < fields.len() implies !fields[i].0.contains(',')
        && !fields[i].0.contains('=') && !fields[i].1.contains(',') by {}
    assert(none_holds(texts, ',')) by {
        assert forall|i: int| 0 <= i < texts.len() implies !(#[trigger] texts[i]).contains(
            ',',
        ) by {
            lemma_concat_lacks(fields[i].0, "="@, ',');
            lemma_concat_lacks(fields[i].0 + "="@, fields[i].1, ',');
        }
    }
    lemma_split_join(texts, ',');
    assert forall|i: int| 0 <= i < fields.len() implies key_value(texts[i]) == fields[i] by {
        lemma_key_value(fields[i].0, fields[i].1);
    }
    assert(parse_options(option_string(fields)) =~= fields);
}

} // verus!
