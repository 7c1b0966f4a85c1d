//! Output configurations that clients ask for.

use crate::config::settings::Transform;
use crate::geometry::{Point, Size};
use crate::scalar::Scalar;
use crate::state::output::{Output, OutputState};
use crate::state::wm::{DriftWm, RenderCache};
use vstd::prelude::*;

verus! {

broadcast use vstd::std_specs::hash::group_hash_axioms;

/// The configuration that a client asks for one output. What is `None` stays.
#[derive(Debug)]
pub struct RequestedHeadConfig {
    pub output_name: String,
    pub transform: Option<Transform>,
    pub scale: Option<Scalar>,
    pub position: Option<(i32, i32)>,
    /// The size of the output's mode after the requested transform, divided by
    /// the requested scale and rounded up.
    pub scaled_size: Size,
}

/// The first mapped output with the given name stands at `i`.
pub open spec fn named_at(outputs: Seq<Output>, name: Seq<char>, i: int) -> bool {
    &&& 0 <= i < outputs.len()
    &&& outputs[i].location is Some
    &&& outputs[i].name@ == name
    &&& forall|j: int|
        0 <= j < i ==> !((#[trigger] outputs[j]).location is Some && outputs[j].name@ == name)
}

/// A mapped output has the given name.
pub open spec fn known_name(outputs: Seq<Output>, name: Seq<char>) -> bool {
    exists|i: int| named_at(outputs, name, i)
}

/// An output with a requested configuration.
pub open spec fn reconfigured(output: Output, request: RequestedHeadConfig) -> Output {
    Output {
        transform: match request.transform {
            Some(transform) => transform,
            None => output.transform,
        },
        scale: match request.scale {
            Some(scale) => scale,
            None => output.scale,
        },
        scaled_size: request.scaled_size,
        state: match request.position {
            Some((x, y)) => Some(
                OutputState { layout_position: Point { x, y }, ..output.viewport() },
            ),
            None => output.state,
        },
        ..output
    }
}

/// What no request sets for an output is after them what it was before: all of it when
/// no request names it, and otherwise its transform, scale and viewport unless a request
/// with its name gives a transform, a scale or a position.
pub open spec fn left_out_stays(
    before: Output,
    after: Output,
    requests: Seq<RequestedHeadConfig>,
) -> bool {
    &&& (forall|k: int|
        0 <= k < requests.len() ==> (#[trigger] requests[k]).output_name@ != before.name@)
        ==> after == before
    &&& (forall|k: int|
        0 <= k < requests.len() && (#[trigger] requests[k]).output_name@ == before.name@
            ==> requests[k].transform is None) ==> after.transform == before.transform
    &&& (forall|k: int|
        0 <= k < requests.len() && (#[trigger] requests[k]).output_name@ == before.name@
            ==> requests[k].scale is None) ==> after.scale == before.scale
    &&& (forall|k: int|
        0 <= k < requests.len() && (#[trigger] requests[k]).output_name@ == before.name@
            ==> requests[k].position is None) ==> after.state == before.state
}

/// How many requests, counted from the first, name a mapped output without a gap.
pub open spec fn known_prefix(outputs: Seq<Output>, requests: Seq<RequestedHeadConfig>) -> nat
    decreases requests.len(),
{
    if requests.len() == 0 {
        0
    } else {
        let before = known_prefix(outputs, requests.drop_last());
        if before == requests.len() - 1 && known_name(outputs, requests.last().output_name@) {
            requests.len()
        } else {
            before
        }
    }
}

/// The outputs after all requests were applied, in their order.
pub open spec fn all_configured(
    outputs: Seq<Output>,
    requests: Seq<RequestedHeadConfig>,
) -> Seq<Output>
    decreases requests.len(),
{
    if requests.len() == 0 {
        outputs
    } else {
        let before = all_configured(outputs, requests.drop_last());
        let i = choose|i: int| named_at(outputs, requests.last().output_name@, i);
        before.update(i, reconfigured(before[i], requests.last()))
    }
}

/// The names that requests name.
pub open spec fn names_of(requests: Seq<RequestedHeadConfig>) -> Set<Seq<char>>
    decreases requests.len(),
{
    if requests.len() == 0 {
        Set::empty()
    } else {
        names_of(requests.drop_last()).insert(requests.last().output_name@)
    }
}

/// Requests after an unknown name do not count.
proof fn lemma_prefix_stops(outputs: Seq<Output>, requests: Seq<RequestedHeadConfig>, at: int)
    requires
        0 <= at < requests.len(),
        known_prefix(outputs, requests.take(at)) == at,
        !known_name(outputs, requests[at].output_name@),
    ensures
        known_prefix(outputs, requests) == at,
    decreases requests.len(),
{
    let first = requests.drop_last();
    if at == first.len() {
        assert(requests.take(at) =~= first);
    } else {
        assert(first.take(at) =~= requests.take(at));
        lemma_prefix_stops(outputs, first, at);
    }
}

/// Applying requests changes neither which outputs there are nor their names nor
/// where they stand on the canvas.
pub proof fn lemma_configuring_keeps_outputs(
    outputs: Seq<Output>,
    requests: Seq<RequestedHeadConfig>,
)
    requires
        known_prefix(outputs, requests) == requests.len(),
        forall|i: int| 0 <= i < outputs.len() ==> (#[trigger] outputs[i]).ready(),
    ensures
        all_configured(outputs, requests).len() == outputs.len(),
        forall|i: int|
            0 <= i < outputs.len() ==> {
                let after = #[trigger] all_configured(outputs, requests)[i];
                &&& after.id == outputs[i].id
                &&& after.name == outputs[i].name
                &&& after.location == outputs[i].location
                &&& after.mode == outputs[i].mode
                &&& after.usable == outputs[i].usable
                &&& after.ready()
                &&& after.viewport().camera == outputs[i].viewport().camera
                &&& after.viewport().zoom == outputs[i].viewport().zoom
            },
    decreases requests.len(),
{
    if requests.len() > 0 {
        let first = requests.drop_last();
        assert(known_prefix(outputs, first) <= first.len()) by {
            lemma_prefix_bounded(outputs, first);
        }
        lemma_configuring_keeps_outputs(outputs, first);
        assert forall|i: int| 0 <= i < outputs.len() implies {
            let after = #[trigger] all_configured(outputs, requests)[i];
            &&& after.id == outputs[i].id
            &&& after.name == outputs[i].name
            &&& after.location == outputs[i].location
            &&& after.mode == outputs[i].mode
            &&& after.usable == outputs[i].usable
            &&& after.ready()
            &&& after.viewport().camera == outputs[i].viewport().camera
            &&& after.viewport().zoom == outputs[i].viewport().zoom
        } by {
            let before = all_configured(outputs, first)[i];
            assert(before.id == outputs[i].id);
        }
    }
}

/// The prefix is a part of the requests.
proof fn lemma_prefix_bounded(outputs: Seq<Output>, requests: Seq<RequestedHeadConfig>)
    ensures
        known_prefix(outputs, requests) <= requests.len(),
    decreases requests.len(),
{
    if requests.len() > 0 {
        lemma_prefix_bounded(outputs, requests.drop_last());
    }
}

impl RenderCache {
    /// The cache without the backgrounds of the outputs with the given names.
    pub open spec fn forgot(self, before: RenderCache, names: Set<Seq<char>>) -> bool {
        &&& self == (RenderCache {
            cached_bg_elements: self.cached_bg_elements,
            cached_tile_bg: self.cached_tile_bg,
            cached_wallpaper_bg: self.cached_wallpaper_bg,
            ..before
        })
        &&& self.cached_bg_elements@ == before.cached_bg_elements@.difference(names)
        &&& self.cached_tile_bg@ == before.cached_tile_bg@.difference(names)
        &&& self.cached_wallpaper_bg@ == before.cached_wallpaper_bg@.difference(names)
    }

    /// Forgets the background of an output, so that it is made anew.
    pub fn remove_output(&mut self, name: &String)
        ensures
            final(self).forgot(*old(self), set![name@]),
    {
        self.cached_bg_elements.remove(name);
        self.cached_tile_bg.remove(name);
        self.cached_wallpaper_bg.remove(name);
        proof {
            let one = set![name@];
            assert(self.cached_bg_elements@ =~= old(self).cached_bg_elements@.difference(one));
            assert(self.cached_tile_bg@ =~= old(self).cached_tile_bg@.difference(one));
            assert(self.cached_wallpaper_bg@ =~= old(self).cached_wallpaper_bg@.difference(one));
        }
    }
}

impl DriftWm {
    /// Where the first mapped output with the given name stands.
    fn find_named(&self, name: &String) -> (r: Option<usize>)
        ensures
            match r {
                Some(i) => named_at(self.outputs@, name@, i as int),
                None => !known_name(self.outputs@, name@),
            },
    {
        let mut i: usize = 0;
        while i < self.outputs.len()
            invariant
                i <= self.outputs.len(),
                forall|j: int|
                    0 <= j < i ==> !((#[trigger] self.outputs@[j]).location is Some
                        && self.outputs@[j].name@ == name@),
            decreases self.outputs.len() - i,
        {
            if self.outputs[i].location.is_some() && self.outputs[i].name == *name {
                return Some(i);
            }
            i += 1;
        }
        None
    }

    /// Applies the configurations that a client asks for, in their order. At the
    /// first one that names no mapped output the request fails; what was applied
    /// before stays applied.
    pub fn apply_output_config(&mut self, requests: &Vec<RequestedHeadConfig>) -> (applied: bool)
        requires
            old(self).wf(),
        ensures
            final(self).wf(),
            ({
                let count = known_prefix(old(self).outputs@, requests@);
                let taken = requests@.take(count as int);
                &&& applied == (count == requests.len())
                &&& final(self).outputs@ == all_configured(old(self).outputs@, taken)
                &&& final(self).render.forgot(
                    old(self).render,
                    names_of(taken),
                )
            }),
            final(self).redraws_needed@ == (if applied {
                old(self).redraws_needed@.union(old(self).active_crtcs@)
            } else {
                old(self).redraws_needed@
            }),
            final(self).output_config_dirty == (applied || old(self).output_config_dirty),
            final(self).outputs.len() == old(self).outputs.len(),
            forall|i: int|
                0 <= i < old(self).outputs.len() ==> left_out_stays(
                    old(self).outputs@[i],
                    #[trigger] final(self).outputs@[i],
                    requests@,
                ),
            *final(self) == (DriftWm {
                outputs: final(self).outputs,
                render: final(self).render,
                redraws_needed: final(self).redraws_needed,
                output_config_dirty: final(self).output_config_dirty,
                ..*old(self)
            }),
    {
        let ghost start = self.outputs@;
        let ghost cache = self.render;
        let mut i: usize = 0;
        proof {
            assert(requests@.take(0) =~= Seq::<RequestedHeadConfig>::empty());
            assert(cache.cached_bg_elements@.difference(Set::empty())
                =~= cache.cached_bg_elements@);
            assert(cache.cached_tile_bg@.difference(Set::empty()) =~= cache.cached_tile_bg@);
            assert(cache.cached_wallpaper_bg@.difference(Set::empty())
                =~= cache.cached_wallpaper_bg@);
        }
        while i < requests.len()
            invariant
                i <= requests.len(),
                old(self).wf(),
                start == old(self).outputs@,
                cache == old(self).render,
                known_prefix(start, requests@.take(i as int)) == i,
                self.outputs@ == all_configured(start, requests@.take(i as int)),
                self.render.forgot(cache, names_of(requests@.take(i as int))),
                *self == (DriftWm { outputs: self.outputs, render: self.render, ..*old(self) }),
            decreases requests.len() - i,
        {
            let request: &RequestedHeadConfig = &requests[i];
            let ghost seen = requests@.take(i as int);
            let ghost next = requests@.take(i + 1);
            proof {
                lemma_configuring_keeps_outputs(start, seen);
                self.lemma_same_names(start, request.output_name@);
                assert(next.drop_last() =~= seen);
                assert(next.last() == *request);
            }
            let at: usize = match self.find_named(&request.output_name) {
                Some(at) => at,
                None => {
                    proof {
                        lemma_prefix_stops(start, requests@, i as int);
                        self.lemma_wf_after(*old(self), seen);
                        lemma_all_left_out_stays(start, requests@, i as int);
                    }
                    return false;
                },
            };
            proof {
                assert(named_at(start, request.output_name@, at as int));
                let k = choose|k: int| named_at(start, request.output_name@, k);
                if k < at {
                    assert(!(start[k].location is Some && start[k].name@
                        == request.output_name@));
                }
                if at < k {
                    assert(!(start[at as int].location is Some && start[at as int].name@
                        == request.output_name@));
                }
                assert(self.outputs@[at as int].ready());
            }
            let ghost before = self.outputs@;
            let output: &mut Output = &mut self.outputs[at];
            if let Some(transform) = request.transform {
                output.transform = transform;
            }
            if let Some(scale) = request.scale {
                output.scale = scale;
            }
            output.scaled_size = request.scaled_size;
            if let Some((x, y)) = request.position {
                let state: OutputState = output.state.unwrap();
                output.state = Some(OutputState { layout_position: Point { x, y }, ..state });
            }
            let id: u64 = output.id;
            assert(self.outputs@ =~= before.update(
                at as int,
                reconfigured(before[at as int], *request),
            ));
            let ghost cached = self.render;
            self.render.remove_output(&request.output_name);
            proof {
                let more = names_of(seen).insert(request.output_name@);
                assert(self.render.cached_bg_elements@ =~= cache.cached_bg_elements@.difference(
                    more,
                ));
                assert(self.render.cached_tile_bg@ =~= cache.cached_tile_bg@.difference(more));
                assert(self.render.cached_wallpaper_bg@ =~= cache.cached_wallpaper_bg@.difference(
                    more,
                ));
            }
            i += 1;
        }
        assert(requests@.take(i as int) =~= requests@);
        proof {
            lemma_configuring_keeps_outputs(start, requests@);
            self.lemma_wf_after(*old(self), requests@);
            lemma_all_left_out_stays(start, requests@, i as int);
        }
        self.mark_all_dirty();
        self.output_config_dirty = true;
        true
    }

    /// Names are found where they were.
    proof fn lemma_same_names(self, before: Seq<Output>, name: Seq<char>)
        requires
            self.outputs.len() == before.len(),
            forall|i: int|
                0 <= i < before.len() ==> (#[trigger] self.outputs@[i]).name == before[i].name
                    && self.outputs@[i].location == before[i].location,
        ensures
            forall|i: int| named_at(self.outputs@, name, i) <==> #[trigger] named_at(
                before,
                name,
                i,
            ),
            known_name(self.outputs@, name) == known_name(before, name),
    {
        assert forall|i: int| named_at(self.outputs@, name, i) <==> #[trigger] named_at(
            before,
            name,
            i,
        ) by {
            if named_at(self.outputs@, name, i) {
                assert forall|j: int| 0 <= j < i implies !((#[trigger] before[j]).location is Some
                    && before[j].name@ == name) by {
                    assert(self.outputs@[j].name == before[j].name);
                }
            }
            if named_at(before, name, i) {
                assert forall|j: int| 0 <= j < i implies !((
                #[trigger] self.outputs@[j]).location is Some && self.outputs@[j].name@
                    == name) by {
                    assert(before[j].name@ != name || before[j].location is None);
                }
            }
        }
        if known_name(self.outputs@, name) {
            let i = choose|i: int| named_at(self.outputs@, name, i);
            assert(named_at(before, name, i));
        }
        if known_name(before, name) {
            let i = choose|i: int| named_at(before, name, i);
            assert(named_at(self.outputs@, name, i));
        }
    }

    /// Configuring outputs keeps the state well formed.
    proof fn lemma_wf_after(self, before: DriftWm, requests: Seq<RequestedHeadConfig>)
        requires
            before.wf(),
            known_prefix(before.outputs@, requests) == requests.len(),
            self.outputs@ == all_configured(before.outputs@, requests),
            self == (DriftWm { outputs: self.outputs, render: self.render, ..before }),
        ensures
            self.wf(),
    {
        lemma_configuring_keeps_outputs(before.outputs@, requests);
        self.lemma_wf_with_outputs(before);
    }
}

/// A name is found at one place.
proof fn lemma_named_once(outputs: Seq<Output>, name: Seq<char>, i: int, k: int)
    requires
        named_at(outputs, name, i),
        named_at(outputs, name, k),
    ensures
        i == k,
{
    if i < k {
        assert(!(outputs[i].location is Some && outputs[i].name@ == name));
    }
    if k < i {
        assert(!(outputs[k].location is Some && outputs[k].name@ == name));
    }
}

/// What the requests leave out stays. An output that no request names, that is
/// not mapped, or that stands behind a mapped one of the same name keeps all that
/// it has. A named one keeps its transform, scale or layout position unless some
/// request with its name sets it, and nothing else about it changes but the size
/// that goes with the transform and scale.
pub proof fn lemma_settings_left_out_stay(
    outputs: Seq<Output>,
    requests: Seq<RequestedHeadConfig>,
    i: int,
)
    requires
        known_prefix(outputs, requests) == requests.len(),
        forall|k: int| 0 <= k < outputs.len() ==> (#[trigger] outputs[k]).state is Some,
        0 <= i < outputs.len(),
    ensures
        ({
            let before = outputs[i];
            let after = all_configured(outputs, requests)[i];
            &&& all_configured(outputs, requests).len() == outputs.len()
            &&& (forall|k: int|
                0 <= k < requests.len() ==> (#[trigger] requests[k]).output_name@
                    != before.name@) ==> after == before
            &&& before.location is None ==> after == before
            &&& (exists|j: int|
                0 <= j < i && (#[trigger] outputs[j]).location is Some && outputs[j].name@
                    == before.name@) ==> after == before
            &&& (forall|k: int|
                0 <= k < requests.len() && (#[trigger] requests[k]).output_name@ == before.name@
                    ==> requests[k].transform is None) ==> after.transform == before.transform
            &&& (forall|k: int|
                0 <= k < requests.len() && (#[trigger] requests[k]).output_name@ == before.name@
                    ==> requests[k].scale is None) ==> after.scale == before.scale
            &&& (forall|k: int|
                0 <= k < requests.len() && (#[trigger] requests[k]).output_name@ == before.name@
                    ==> requests[k].position is None) ==> after.state == before.state
            &&& after.state is Some
            &&& after.state->0.camera == before.state->0.camera
            &&& after.state->0.zoom == before.state->0.zoom
            &&& after.state->0 == (OutputState {
                layout_position: after.state->0.layout_position,
                ..before.state->0
            })
            &&& after == (Output {
                transform: after.transform,
                scale: after.scale,
                scaled_size: after.scaled_size,
                state: after.state,
                ..before
            })
        }),
    decreases requests.len(),
{
    if requests.len() > 0 {
        let first = requests.drop_last();
        let last = requests.last();
        lemma_prefix_bounded(outputs, first);
        lemma_settings_left_out_stay(outputs, first, i);
        assert forall|k: int| 0 <= k < first.len() implies #[trigger] first[k] == requests[k] by {}
        assert(last == requests[requests.len() - 1]);
        let at = choose|at: int| named_at(outputs, last.output_name@, at);
        assert(named_at(outputs, last.output_name@, at));
        if at == i {
            assert(last.output_name@ == outputs[i].name@);
            if exists|j: int|
                0 <= j < i && (#[trigger] outputs[j]).location is Some && outputs[j].name@
                    == outputs[i].name@ {
                let j = choose|j: int|
                    0 <= j < i && (#[trigger] outputs[j]).location is Some && outputs[j].name@
                        == outputs[i].name@;
                assert(!(outputs[j].location is Some && outputs[j].name@ == last.output_name@));
            }
        }
    }
}

/// What the first `n` requests leave out stays for every output.
proof fn lemma_all_left_out_stays(
    outputs: Seq<Output>,
    requests: Seq<RequestedHeadConfig>,
    n: int,
)
    requires
        0 <= n <= requests.len(),
        known_prefix(outputs, requests.take(n)) == n,
        forall|k: int| 0 <= k < outputs.len() ==> (#[trigger] outputs[k]).ready(),
    ensures
        all_configured(outputs, requests.take(n)).len() == outputs.len(),
        forall|i: int|
            0 <= i < outputs.len() ==> left_out_stays(
                outputs[i],
                #[trigger] all_configured(outputs, requests.take(n))[i],
                requests,
            ),
{
    let taken = requests.take(n);
    lemma_configuring_keeps_outputs(outputs, taken);
    assert forall|i: int| 0 <= i < outputs.len() implies left_out_stays(
        outputs[i],
        #[trigger] all_configured(outputs, taken)[i],
        requests,
    ) by {
        lemma_settings_left_out_stay(outputs, taken, i);
        assert forall|k: int| 0 <= k < taken.len() implies #[trigger] taken[k] == requests[k] by {}
    }
}

/// The last request that sets a thing decides it: the transform, scale and layout
/// position of an output are those of the last request with its name that gives
/// them, and its size is that of the last request with its name.
pub proof fn lemma_last_setting_wins(
    outputs: Seq<Output>,
    requests: Seq<RequestedHeadConfig>,
    i: int,
    k: int,
)
    requires
        known_prefix(outputs, requests) == requests.len(),
        forall|j: int| 0 <= j < outputs.len() ==> (#[trigger] outputs[j]).state is Some,
        0 <= i < outputs.len(),
        outputs[i].location is Some,
        forall|j: int|
            0 <= j < i ==> !((#[trigger] outputs[j]).location is Some && outputs[j].name@
                == outputs[i].name@),
        0 <= k < requests.len(),
        requests[k].output_name@ == outputs[i].name@,
    ensures
        ({
            let after = all_configured(outputs, requests)[i];
            &&& requests[k].transform is Some && (forall|j: int|
                k < j < requests.len() && (#[trigger] requests[j]).output_name@
                    == outputs[i].name@ ==> requests[j].transform is None) ==> after.transform
                == requests[k].transform->0
            &&& requests[k].scale is Some && (forall|j: int|
                k < j < requests.len() && (#[trigger] requests[j]).output_name@
                    == outputs[i].name@ ==> requests[j].scale is None) ==> after.scale
                == requests[k].scale->0
            &&& requests[k].position is Some && (forall|j: int|
                k < j < requests.len() && (#[trigger] requests[j]).output_name@
                    == outputs[i].name@ ==> requests[j].position is None) ==> {
                &&& after.state->0.layout_position.x == (requests[k].position->0).0
                &&& after.state->0.layout_position.y == (requests[k].position->0).1
            }
            &&& (forall|j: int|
                k < j < requests.len() ==> (#[trigger] requests[j]).output_name@
                    != outputs[i].name@) ==> after.scaled_size == requests[k].scaled_size
        }),
    decreases requests.len(),
{
    let first = requests.drop_last();
    let last = requests.last();
    lemma_prefix_bounded(outputs, first);
    lemma_settings_left_out_stay(outputs, first, i);
    assert forall|j: int| 0 <= j < first.len() implies #[trigger] first[j] == requests[j] by {}
    assert(last == requests[requests.len() - 1]);
    let at = choose|at: int| named_at(outputs, last.output_name@, at);
    assert(named_at(outputs, last.output_name@, at));
    assert(named_at(outputs, outputs[i].name@, i));
    if last.output_name@ == outputs[i].name@ {
        lemma_named_once(outputs, outputs[i].name@, at, i);
    }
    if k < first.len() {
        lemma_last_setting_wins(outputs, first, i, k);
    }
}

/// Requests count up to the first one that names no mapped output: each of those
/// that count names one, and the one after them does not.
pub proof fn lemma_requests_count_up_to_an_unknown_name(
    outputs: Seq<Output>,
    requests: Seq<RequestedHeadConfig>,
)
    ensures
        known_prefix(outputs, requests) <= requests.len(),
        forall|k: int|
            0 <= k < known_prefix(outputs, requests) ==> exists|i: int|
                0 <= i < outputs.len() && (#[trigger] outputs[i]).location is Some
                    && outputs[i].name@ == (#[trigger] requests[k]).output_name@,
        known_prefix(outputs, requests) < requests.len() ==> forall|i: int|
            0 <= i < outputs.len() ==> !((#[trigger] outputs[i]).location is Some
                && outputs[i].name@ == requests[known_prefix(
                outputs,
                requests,
            ) as int].output_name@),
    decreases requests.len(),
{
    if requests.len() > 0 {
        let first = requests.drop_last();
        let last = requests.last();
        lemma_requests_count_up_to_an_unknown_name(outputs, first);
        assert forall|k: int| 0 <= k < first.len() implies #[trigger] first[k] == requests[k] by {}
        let n = known_prefix(outputs, requests);
        assert forall|k: int| 0 <= k < n implies exists|i: int|
            0 <= i < outputs.len() && (#[trigger] outputs[i]).location is Some && outputs[i].name@
                == (#[trigger] requests[k]).output_name@ by {
            if k < first.len() {
                assert(first[k] == requests[k]);
            } else {
                let i = choose|i: int| named_at(outputs, last.output_name@, i);
                assert(outputs[i].location is Some && outputs[i].name@ == requests[k].output_name@);
            }
        }
        if n == first.len() && n < requests.len() {
            assert forall|i: int| 0 <= i < outputs.len() implies !((
            #[trigger] outputs[i]).location is Some && outputs[i].name@
                == last.output_name@) by {
                if outputs[i].location is Some && outputs[i].name@ == last.output_name@ {
                    lemma_first_with_name(outputs, last.output_name@, i);
                }
            }
        }
    }
}

/// A mapped output with a name means that there is a first one.
proof fn lemma_first_with_name(outputs: Seq<Output>, name: Seq<char>, i: int)
    requires
        0 <= i < outputs.len(),
        outputs[i].location is Some,
        outputs[i].name@ == name,
    ensures
        known_name(outputs, name),
    decreases i,
{
    if exists|j: int|
        0 <= j < i && (#[trigger] outputs[j]).location is Some && outputs[j].name@ == name {
        let j = choose|j: int|
            0 <= j < i && (#[trigger] outputs[j]).location is Some && outputs[j].name@ == name;
        lemma_first_with_name(outputs, name, j);
    } else {
        assert(named_at(outputs, name, i));
    }
}

/// A background is forgotten exactly when some request names its output, and the
/// other backgrounds are kept.
pub proof fn lemma_named_backgrounds_are_forgotten(
    cache: RenderCache,
    after: RenderCache,
    requests: Seq<RequestedHeadConfig>,
    name: Seq<char>,
)
    requires
        after.forgot(cache, names_of(requests)),
    ensures
        ({
            let named = exists|k: int|
                0 <= k < requests.len() && (#[trigger] requests[k]).output_name@ == name;
            &&& after.cached_bg_elements@.contains(name) <==> cache.cached_bg_elements@.contains(
                name,
            ) && !named
            &&& after.cached_tile_bg@.contains(name) <==> cache.cached_tile_bg@.contains(name)
                && !named
            &&& after.cached_wallpaper_bg@.contains(name) <==> cache.cached_wallpaper_bg@.contains(
                name,
            ) && !named
            &&& after.blur_camera_generation == cache.blur_camera_generation
        }),
{
    lemma_names_are_those_named(requests, name);
}

/// The names are those of the requests.
proof fn lemma_names_are_those_named(requests: Seq<RequestedHeadConfig>, name: Seq<char>)
    ensures
        names_of(requests).contains(name) <==> exists|k: int|
            0 <= k < requests.len() && (#[trigger] requests[k]).output_name@ == name,
    decreases requests.len(),
{
    if requests.len() > 0 {
        let first = requests.drop_last();
        lemma_names_are_those_named(first, name);
        assert forall|k: int| 0 <= k < first.len() implies #[trigger] first[k] == requests[k] by {}
        assert(requests.last() == requests[requests.len() - 1]);
        if exists|k: int| 0 <= k < requests.len() && (#[trigger] requests[k]).output_name@ == name {
            let k = choose|k: int|
                0 <= k < requests.len() && (#[trigger] requests[k]).output_name@ == name;
            if k < first.len() {
                assert(first[k].output_name@ == name);
            }
        }
        if exists|k: int| 0 <= k < first.len() && (#[trigger] first[k]).output_name@ == name {
            let k = choose|k: int|
                0 <= k < first.len() && (#[trigger] first[k]).output_name@ == name;
            assert(requests[k].output_name@ == name);
        }
    }
}

} // verus!
