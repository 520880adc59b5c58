//! Which local image previews to delete and which to draw, given what is on screen.
//!
//! The workspace asks for a set of image placements on every frame. Only changed placements are
//! drawn again, and placements no longer requested are deleted. Requests are keyed by image id;
//! when two requests share an id, the later one counts. Placements are handled in id order.

use crate::image_previews::LocalImagePreviewDraw;
use crate::pets::{
    kitty_delete_bytes, kitty_delete_image, move_to, move_to_bytes, push_all, restore_position, restore_position_bytes,
    save_position, save_position_bytes,
};
use vstd::prelude::*;

verus! {

pub struct DrawModel {
    pub image_id: u32,
    pub path: Seq<char>,
    pub x: u16,
    pub y: u16,
    pub columns: u16,
    pub rows: u16,
}

impl View for LocalImagePreviewDraw {
    type V = DrawModel;

    open spec fn view(&self) -> DrawModel {
        DrawModel {
            image_id: self.image_id,
            path: self.path@,
            x: self.x,
            y: self.y,
            columns: self.columns,
            rows: self.rows,
        }
    }
}

pub open spec fn draws_view(draws: Seq<LocalImagePreviewDraw>) -> Seq<DrawModel> {
    draws.map_values(|d: LocalImagePreviewDraw| d@)
}

/// Whether two placements are the same.
pub fn same_draw(a: &LocalImagePreviewDraw, b: &LocalImagePreviewDraw) -> (r: bool)
    ensures
        r == (a@ == b@),
{
    a.image_id == b.image_id && a.x == b.x && a.y == b.y && a.columns == b.columns && a.rows == b.rows && a.path
        == b.path
}

/// A drawn preview and the transient PNG made for it, if any.
#[derive(Clone, Debug)]
pub struct RenderedLocalImagePreview {
    pub request: LocalImagePreviewDraw,
    pub temporary_path: Option<String>,
}

/// The previews on screen, in increasing id order.
#[derive(Clone, Debug)]
pub struct LocalImagePreviewState {
    pub rendered: Vec<RenderedLocalImagePreview>,
}

pub open spec fn rendered_view(rendered: Seq<RenderedLocalImagePreview>) -> Seq<DrawModel> {
    rendered.map_values(|p: RenderedLocalImagePreview| p.request@)
}

/// The ids of the models increase strictly.
pub open spec fn ids_increasing(s: Seq<DrawModel>) -> bool {
    forall|i: int, j: int| 0 <= i < j < s.len() ==> #[trigger] s[i].image_id < #[trigger] s[j].image_id
}

/// Some model has the id.
pub open spec fn has_id(s: Seq<DrawModel>, id: u32) -> bool {
    exists|i: int| 0 <= i < s.len() && #[trigger] s[i].image_id == id
}

/// The last request with the id.
pub open spec fn last_request(requests: Seq<DrawModel>, id: u32) -> DrawModel
    decreases requests.len(),
{
    if requests.len() == 0 {
        arbitrary()
    } else if requests.last().image_id == id {
        requests.last()
    } else {
        last_request(requests.drop_last(), id)
    }
}

/// The preview with the id is on screen exactly as requested.
pub open spec fn unchanged(rendered: Seq<DrawModel>, requests: Seq<DrawModel>, id: u32) -> bool {
    exists|i: int| 0 <= i < rendered.len() && #[trigger] rendered[i].image_id == id && rendered[i] == last_request(requests, id)
}

/// What a frame's requests ask for: the ids to delete and the placements to draw, each in
/// increasing id order. A placement is drawn when it is requested and not on screen as
/// requested; an id is deleted when it is on screen and no longer requested.
pub struct LocalImagePreviewPlan {
    pub removed: Vec<u32>,
    pub draws: Vec<LocalImagePreviewDraw>,
}

/// The requests with one (the last) request per id, in increasing id order.
pub open spec fn is_deduplicated(d: Seq<DrawModel>, requests: Seq<DrawModel>) -> bool {
    &&& ids_increasing(d)
    &&& forall|j: int| 0 <= j < d.len() ==> #[trigger] d[j] == last_request(requests, d[j].image_id)
    &&& forall|id: u32| #[trigger] has_id(requests, id) <==> has_id(d, id)
}

/// The plan is the one the requests ask for.
pub open spec fn is_plan_for(
    removed: Seq<u32>,
    draws: Seq<DrawModel>,
    rendered: Seq<DrawModel>,
    requests: Seq<DrawModel>,
) -> bool {
    &&& forall|i: int, j: int| 0 <= i < j < removed.len() ==> #[trigger] removed[i] < #[trigger] removed[j]
    &&& forall|id: u32| #[trigger] removed.contains(id) <==> has_id(rendered, id) && !has_id(requests, id)
    &&& ids_increasing(draws)
    &&& forall|j: int| 0 <= j < draws.len() ==> #[trigger] draws[j] == last_request(requests, draws[j].image_id)
    &&& forall|id: u32| #[trigger] has_id(draws, id) <==> has_id(requests, id) && !unchanged(rendered, requests, id)
}

proof fn lemma_last_request_push(requests: Seq<DrawModel>, r: DrawModel, id: u32)
    ensures
        last_request(requests.push(r), id) == if r.image_id == id {
            r
        } else {
            last_request(requests, id)
        },
{
    assert(requests.push(r).drop_last() =~= requests);
}

proof fn lemma_last_request_has_id(requests: Seq<DrawModel>, id: u32)
    requires
        has_id(requests, id),
    ensures
        last_request(requests, id).image_id == id,
    decreases requests.len(),
{
    if requests.last().image_id != id {
        let i = choose|i: int| 0 <= i < requests.len() && #[trigger] requests[i].image_id == id;
        assert(requests.drop_last()[i].image_id == id);
        lemma_last_request_has_id(requests.drop_last(), id);
    }
}

impl LocalImagePreviewState {
    pub open spec fn wf(&self) -> bool {
        ids_increasing(rendered_view(self.rendered@))
    }

    /// No previews on screen.
    pub fn new() -> (r: Self)
        ensures
            r.wf(),
            r.rendered@.len() == 0,
    {
        LocalImagePreviewState { rendered: Vec::new() }
    }

    /// The position of the preview with the id.
    pub fn find(&self, image_id: u32) -> (r: Option<usize>)
        requires
            self.wf(),
        ensures
            match r {
                Some(i) => i < self.rendered@.len() && self.rendered@[i as int].request.image_id == image_id,
                None => !has_id(rendered_view(self.rendered@), image_id),
            },
    {
        let ghost v = rendered_view(self.rendered@);
        let n = self.rendered.len();
        let mut i: usize = 0;
        while i < n
            invariant
                0 <= i <= n,
                n == self.rendered@.len(),
                v == rendered_view(self.rendered@),
                forall|k: int| 0 <= k < i ==> #[trigger] v[k].image_id != image_id,
            decreases n - i,
        {
            if self.rendered[i].request.image_id == image_id {
                return Some(i);
            }
            assert(v[i as int] == self.rendered@[i as int].request@);
            i += 1;
        }
        None
    }

    /// Removes the preview with the id; returns its transient PNG, which the caller deletes.
    pub fn forget(&mut self, image_id: u32) -> (r: Option<Option<String>>)
        requires
            old(self).wf(),
        ensures
            final(self).wf(),
            r is None <==> !has_id(rendered_view(old(self).rendered@), image_id),
            r is None ==> final(self).rendered@ == old(self).rendered@,
            r matches Some(t) ==> exists|i: int|
                0 <= i < old(self).rendered@.len() && #[trigger] old(self).rendered@[i].request.image_id == image_id
                    && t == old(self).rendered@[i].temporary_path && final(self).rendered@ == old(
                    self,
                ).rendered@.remove(i),
            !has_id(rendered_view(final(self).rendered@), image_id),
            forall|id: u32|
                id != image_id ==> (has_id(rendered_view(final(self).rendered@), id) <==> has_id(
                    rendered_view(old(self).rendered@),
                    id,
                )),
    {
        let ghost before = rendered_view(self.rendered@);
        match self.find(image_id) {
            None => None,
            Some(i) => {
                let removed = self.rendered.remove(i);
                let ghost after = rendered_view(self.rendered@);
                proof {
                    assert(after =~= before.remove(i as int));
                    assert forall|a: int, b: int| 0 <= a < b < after.len() implies #[trigger] after[a].image_id
                        < #[trigger] after[b].image_id by {
                        let a2 = if a < i { a } else { a + 1 };
                        let b2 = if b < i { b } else { b + 1 };
                        assert(before[a2].image_id < before[b2].image_id);
                    }
                    assert(has_id(before, image_id)) by {
                        assert(before[i as int].image_id == image_id);
                    }
                    assert(!has_id(after, image_id)) by {
                        if has_id(after, image_id) {
                            let k = choose|k: int| 0 <= k < after.len() && #[trigger] after[k].image_id == image_id;
                            let k2 = if k < i { k } else { k + 1 };
                            assert(before[k2].image_id == image_id);
                            assert(k2 != i);
                            if k2 < i {
                                assert(before[k2].image_id < before[i as int].image_id);
                            } else {
                                assert(before[i as int].image_id < before[k2].image_id);
                            }
                        }
                    }
                    assert forall|id: u32| id != image_id implies (has_id(after, id) <==> has_id(before, id)) by {
                        if has_id(before, id) {
                            let k = choose|k: int| 0 <= k < before.len() && #[trigger] before[k].image_id == id;
                            assert(k != i);
                            let k2 = if k < i { k } else { k - 1 };
                            assert(after[k2].image_id == id);
                        }
                        if has_id(after, id) {
                            let k = choose|k: int| 0 <= k < after.len() && #[trigger] after[k].image_id == id;
                            let k2 = if k < i { k } else { k + 1 };
                            assert(before[k2].image_id == id);
                        }
                    }
                }
                Some(removed.temporary_path)
            },
        }
    }
}

/// Inserts `r` into the deduplicated requests, replacing an earlier request with its id.
fn insert_request(d: &mut Vec<LocalImagePreviewDraw>, r: &LocalImagePreviewDraw, Ghost(prefix): Ghost<Seq<DrawModel>>)
    requires
        is_deduplicated(draws_view(old(d)@), prefix),
    ensures
        is_deduplicated(draws_view(final(d)@), prefix.push(r@)),
{
    let ghost before = draws_view(d@);
    let ghost full = prefix.push(r@);
    proof {
        assert forall|id: u32| #[trigger] last_request(full, id) == if r@.image_id == id {
            r@
        } else {
            last_request(prefix, id)
        } by {
            lemma_last_request_push(prefix, r@, id);
        }
        assert forall|id: u32| #[trigger] has_id(full, id) <==> (has_id(prefix, id) || r@.image_id == id) by {
            if has_id(full, id) {
                let k = choose|k: int| 0 <= k < full.len() && #[trigger] full[k].image_id == id;
                if k < prefix.len() {
                    assert(prefix[k].image_id == id);
                }
            }
            if has_id(prefix, id) {
                let k = choose|k: int| 0 <= k < prefix.len() && #[trigger] prefix[k].image_id == id;
                assert(full[k].image_id == id);
            }
            if r@.image_id == id {
                assert(full[prefix.len() as int].image_id == id);
            }
        }
    }
    let n = d.len();
    let mut i: usize = 0;
    while i < n && d[i].image_id < r.image_id
        invariant
            0 <= i <= n,
            n == d@.len(),
            before == draws_view(d@),
            is_deduplicated(before, prefix),
            forall|k: int| 0 <= k < i ==> #[trigger] before[k].image_id < r.image_id,
        decreases n - i,
    {
        assert(before[i as int] == d@[i as int]@);
        i += 1;
    }
    let fresh = LocalImagePreviewDraw {
        image_id: r.image_id,
        path: r.path.clone(),
        x: r.x,
        y: r.y,
        columns: r.columns,
        rows: r.rows,
    };
    assert(fresh@ == r@);
    if i < n && d[i].image_id == r.image_id {
        assert(before[i as int] == d@[i as int]@);
        d.set(i, fresh);
        let ghost after = draws_view(d@);
        proof {
            assert(after =~= before.update(i as int, r@));
            assert forall|a: int, b: int| 0 <= a < b < after.len() implies #[trigger] after[a].image_id
                < #[trigger] after[b].image_id by {
                assert(before[a].image_id < before[b].image_id);
            }
            assert forall|j: int| 0 <= j < after.len() implies #[trigger] after[j] == last_request(
                full,
                after[j].image_id,
            ) by {
                if j != i {
                    assert(before[j] == last_request(prefix, before[j].image_id));
                    assert(before[j].image_id != r@.image_id) by {
                        if j < i {
                            assert(before[j].image_id < before[i as int].image_id);
                        } else {
                            assert(before[i as int].image_id < before[j].image_id);
                        }
                    }
                }
            }
            assert forall|id: u32| #[trigger] has_id(full, id) <==> has_id(after, id) by {
                if has_id(after, id) {
                    let k = choose|k: int| 0 <= k < after.len() && #[trigger] after[k].image_id == id;
                    assert(before[k].image_id == id);
                    assert(has_id(before, id));
                }
                if has_id(before, id) {
                    let k = choose|k: int| 0 <= k < before.len() && #[trigger] before[k].image_id == id;
                    assert(after[k].image_id == id);
                }
                if r@.image_id == id {
                    assert(after[i as int].image_id == id);
                }
            }
        }
    } else {
        d.insert(i, fresh);
        let ghost after = draws_view(d@);
        proof {
            assert(after =~= before.insert(i as int, r@));
            assert(!has_id(before, r@.image_id)) by {
                if has_id(before, r@.image_id) {
                    let k = choose|k: int| 0 <= k < before.len() && #[trigger] before[k].image_id == r@.image_id;
                    if k < i {
                        assert(before[k].image_id < r.image_id);
                    } else {
                        assert(i < n);
                        assert(before[i as int].image_id != r@.image_id);
                        if k > i {
                            assert(before[i as int].image_id < before[k].image_id);
                        }
                    }
                }
            }
            assert forall|a: int, b: int| 0 <= a < b < after.len() implies #[trigger] after[a].image_id
                < #[trigger] after[b].image_id by {
                if a < i && b < i {
                    assert(before[a].image_id < before[b].image_id);
                } else if a < i && b == i {
                } else if a < i {
                    assert(before[a].image_id < before[b - 1].image_id || a == b - 1);
                    if i < n {
                        assert(before[i as int].image_id >= r.image_id);
                        assert(before[i as int].image_id != r.image_id);
                        if b - 1 > i {
                            assert(before[i as int].image_id < before[b - 1].image_id);
                        }
                    }
                } else if a == i {
                    assert(before[i as int].image_id >= r.image_id);
                    assert(before[i as int].image_id != r.image_id);
                    if b - 1 > i {
                        assert(before[i as int].image_id < before[b - 1].image_id);
                    }
                } else {
                    assert(before[a - 1].image_id < before[b - 1].image_id);
                }
            }
            assert forall|j: int| 0 <= j < after.len() implies #[trigger] after[j] == last_request(
                full,
                after[j].image_id,
            ) by {
                if j < i {
                    assert(after[j] == before[j]);
                    assert(before[j] == last_request(prefix, before[j].image_id));
                } else if j > i {
                    assert(after[j] == before[j - 1]);
                    assert(before[j - 1] == last_request(prefix, before[j - 1].image_id));
                    assert(before[j - 1].image_id != r@.image_id);
                }
            }
            assert forall|id: u32| #[trigger] has_id(full, id) <==> has_id(after, id) by {
                if has_id(after, id) {
                    let k = choose|k: int| 0 <= k < after.len() && #[trigger] after[k].image_id == id;
                    if k < i {
                        assert(before[k].image_id == id);
                    } else if k > i {
                        assert(before[k - 1].image_id == id);
                    }
                }
                if has_id(before, id) {
                    let k = choose|k: int| 0 <= k < before.len() && #[trigger] before[k].image_id == id;
                    if k < i {
                        assert(after[k].image_id == id);
                    } else {
                        assert(after[k + 1].image_id == id);
                    }
                }
                if r@.image_id == id {
                    assert(after[i as int].image_id == id);
                }
            }
        }
    }
}

/// The requests with one (the last) request per id, in increasing id order.
pub fn deduplicate_requests(requests: &Vec<LocalImagePreviewDraw>) -> (r: Vec<LocalImagePreviewDraw>)
    ensures
        is_deduplicated(draws_view(r@), draws_view(requests@)),
{
    let ghost all = draws_view(requests@);
    let mut d: Vec<LocalImagePreviewDraw> = Vec::new();
    proof {
        assert forall|id: u32| #[trigger] has_id(all.take(0), id) <==> has_id(draws_view(d@), id) by {}
    }
    let n = requests.len();
    let mut k: usize = 0;
    while k < n
        invariant
            0 <= k <= n,
            n == requests@.len(),
            all == draws_view(requests@),
            is_deduplicated(draws_view(d@), all.take(k as int)),
        decreases n - k,
    {
        assert(all.take(k + 1) =~= all.take(k as int).push(requests@[k as int]@));
        insert_request(&mut d, &requests[k], Ghost(all.take(k as int)));
        k += 1;
    }
    assert(all.take(n as int) =~= all);
    d
}

impl LocalImagePreviewState {
    /// The ids to delete and the placements to draw for a frame's requests.
    pub fn plan(&self, requests: &Vec<LocalImagePreviewDraw>) -> (r: LocalImagePreviewPlan)
        requires
            self.wf(),
        ensures
            is_plan_for(r.removed@, draws_view(r.draws@), rendered_view(self.rendered@), draws_view(requests@)),
    {
        let ghost rv = rendered_view(self.rendered@);
        let ghost req = draws_view(requests@);
        let requested = deduplicate_requests(requests);
        let ghost dv = draws_view(requested@);
        let mut removed: Vec<u32> = Vec::new();
        let n = self.rendered.len();
        let mut i: usize = 0;
        while i < n
            invariant
                0 <= i <= n,
                n == self.rendered@.len(),
                rv == rendered_view(self.rendered@),
                ids_increasing(rv),
                dv == draws_view(requested@),
                is_deduplicated(dv, req),
                forall|a: int, b: int| 0 <= a < b < removed@.len() ==> #[trigger] removed@[a] < #[trigger] removed@[b],
                forall|a: int|
                    #![trigger removed@[a]]
                    0 <= a < removed@.len() ==> exists|k: int| 0 <= k < i && #[trigger] rv[k].image_id == removed@[a],
                forall|id: u32|
                    #[trigger] removed@.contains(id) <==> (exists|k: int| 0 <= k < i && #[trigger] rv[k].image_id == id)
                        && !has_id(req, id),
            decreases n - i,
        {
            let id = self.rendered[i].request.image_id;
            assert(rv[i as int].image_id == id);
            let mut found = false;
            let m = requested.len();
            let mut j: usize = 0;
            while j < m
                invariant
                    0 <= j <= m,
                    m == requested@.len(),
                    dv == draws_view(requested@),
                    found <==> exists|k: int| 0 <= k < j && #[trigger] dv[k].image_id == id,
                decreases m - j,
            {
                assert(dv[j as int] == requested@[j as int]@);
                if requested[j].image_id == id {
                    found = true;
                }
                proof {
                    if exists|k: int| 0 <= k < j + 1 && #[trigger] dv[k].image_id == id {
                        let k = choose|k: int| 0 <= k < j + 1 && #[trigger] dv[k].image_id == id;
                        if k < j {
                            assert(exists|k2: int| 0 <= k2 < j && #[trigger] dv[k2].image_id == id);
                        }
                    }
                    if found {
                        if requested@[j as int].image_id != id {
                            let k = choose|k: int| 0 <= k < j && #[trigger] dv[k].image_id == id;
                            assert(0 <= k < j + 1 && dv[k].image_id == id);
                        } else {
                            assert(dv[j as int].image_id == id);
                        }
                    }
                }
                j += 1;
            }
            let ghost before = removed@;
            if !found {
                removed.push(id);
                proof {
                    assert forall|a: int| 0 <= a < before.len() implies #[trigger] before[a] < id by {
                        let k = choose|k: int| 0 <= k < i && #[trigger] rv[k].image_id == before[a];
                        assert(rv[k].image_id < rv[i as int].image_id);
                    }
                }
            }
            proof {
                assert(found <==> has_id(dv, id));
                assert forall|x: u32| #[trigger] removed@.contains(x) <==> (exists|k: int|
                    0 <= k < i + 1 && #[trigger] rv[k].image_id == x) && !has_id(req, x) by {
                    if removed@.contains(x) && x != id {
                        assert(before.contains(x)) by {
                            let a = choose|a: int| 0 <= a < removed@.len() && removed@[a] == x;
                            assert(a < before.len());
                            assert(before[a] == x);
                        }
                    }
                    if before.contains(x) {
                        let a = choose|a: int| 0 <= a < before.len() && before[a] == x;
                        assert(removed@[a] == x);
                    }
                    if x == id && !found {
                        assert(removed@[before.len() as int] == x);
                    }
                    if x == id && found {
                        assert(has_id(req, x));
                    }
                    if (exists|k: int| 0 <= k < i + 1 && #[trigger] rv[k].image_id == x) && x != id {
                        let k = choose|k: int| 0 <= k < i + 1 && #[trigger] rv[k].image_id == x;
                        assert(k < i);
                    }
                }
                assert forall|a: int|
                    #![trigger removed@[a]]
                    0 <= a < removed@.len() implies exists|k: int|
                        0 <= k < i + 1 && #[trigger] rv[k].image_id == removed@[a] by {
                    if a < before.len() {
                        let k = choose|k: int| 0 <= k < i && #[trigger] rv[k].image_id == before[a];
                        assert(rv[k].image_id == removed@[a]);
                    } else {
                        assert(rv[i as int].image_id == removed@[a]);
                    }
                }
            }
            i += 1;
        }
        proof {
            assert forall|id: u32| #[trigger] removed@.contains(id) <==> has_id(rv, id) && !has_id(req, id) by {
                if has_id(rv, id) {
                    let k = choose|k: int| 0 <= k < rv.len() && #[trigger] rv[k].image_id == id;
                    assert(exists|k2: int| 0 <= k2 < n && #[trigger] rv[k2].image_id == id);
                }
            }
        }
        let mut draws: Vec<LocalImagePreviewDraw> = Vec::new();
        let m = requested.len();
        let mut j: usize = 0;
        while j < m
            invariant
                0 <= j <= m,
                m == requested@.len(),
                dv == draws_view(requested@),
                is_deduplicated(dv, req),
                rv == rendered_view(self.rendered@),
                ids_increasing(rv),
                self.wf(),
                ids_increasing(draws_view(draws@)),
                forall|a: int|
                    #![trigger draws_view(draws@)[a]]
                    0 <= a < draws@.len() ==> exists|k: int| 0 <= k < j && #[trigger] dv[k] == draws_view(draws@)[a],
                forall|id: u32|
                    #[trigger] has_id(draws_view(draws@), id) <==> (exists|k: int|
                        0 <= k < j && #[trigger] dv[k].image_id == id) && !unchanged(rv, req, id),
            decreases m - j,
        {
            let request = &requested[j];
            assert(dv[j as int] == request@);
            assert(dv[j as int] == last_request(req, request.image_id));
            let position = self.find(request.image_id);
            let same = match position {
                Some(i) => same_draw(&self.rendered[i].request, request),
                None => false,
            };
            proof {
                assert(same <==> unchanged(rv, req, request.image_id)) by {
                    match position {
                        Some(i) => {
                            assert(rv[i as int] == self.rendered@[i as int].request@);
                            if same {
                                assert(rv[i as int].image_id == request.image_id && rv[i as int] == last_request(
                                    req,
                                    request.image_id,
                                ));
                            }
                        },
                        None => {},
                    }
                    if unchanged(rv, req, request.image_id) {
                        let k = choose|k: int| 0 <= k < rv.len() && #[trigger] rv[k].image_id == request.image_id
                            && rv[k] == last_request(req, request.image_id);
                        assert(has_id(rv, request.image_id));
                        match position {
                            Some(i) => {
                                assert(rv[i as int] == self.rendered@[i as int].request@);
                                assert(rv[i as int].image_id == request.image_id);
                                if i != k {
                                    if i < k {
                                        assert(rv[i as int].image_id < rv[k].image_id);
                                    } else {
                                        assert(rv[k].image_id < rv[i as int].image_id);
                                    }
                                }
                            },
                            None => {},
                        }
                    }
                }
            }
            let ghost before = draws_view(draws@);
            if !same {
                let copy = LocalImagePreviewDraw {
                    image_id: request.image_id,
                    path: request.path.clone(),
                    x: request.x,
                    y: request.y,
                    columns: request.columns,
                    rows: request.rows,
                };
                draws.push(copy);
                proof {
                    let after = draws_view(draws@);
                    assert(after =~= before.push(request@));
                    assert forall|a: int| 0 <= a < before.len() implies #[trigger] before[a].image_id
                        < request.image_id by {
                        let k = choose|k: int| 0 <= k < j && #[trigger] dv[k] == before[a];
                        assert(dv[k].image_id < dv[j as int].image_id);
                    }
                    assert forall|a: int, b: int| 0 <= a < b < after.len() implies #[trigger] after[a].image_id
                        < #[trigger] after[b].image_id by {
                        if b < before.len() {
                            assert(before[a].image_id < before[b].image_id);
                        }
                    }
                }
            }
            proof {
                let after = draws_view(draws@);
                assert forall|a: int|
                    #![trigger after[a]]
                    0 <= a < after.len() implies exists|k: int| 0 <= k < j + 1 && #[trigger] dv[k] == after[a] by {
                    if a < before.len() {
                        let k = choose|k: int| 0 <= k < j && #[trigger] dv[k] == before[a];
                        assert(dv[k] == after[a]);
                    } else {
                        assert(dv[j as int] == after[a]);
                    }
                }
                assert forall|id: u32| #[trigger] has_id(after, id) <==> (exists|k: int|
                    0 <= k < j + 1 && #[trigger] dv[k].image_id == id) && !unchanged(rv, req, id) by {
                    if has_id(after, id) {
                        let a = choose|a: int| 0 <= a < after.len() && #[trigger] after[a].image_id == id;
                        if a < before.len() {
                            assert(before[a].image_id == id);
                            assert(has_id(before, id));
                        }
                    }
                    if has_id(before, id) {
                        let a = choose|a: int| 0 <= a < before.len() && #[trigger] before[a].image_id == id;
                        assert(after[a].image_id == id);
                    }
                    if id == request.image_id && !same {
                        assert(after[before.len() as int].image_id == id);
                    }
                    if (exists|k: int| 0 <= k < j + 1 && #[trigger] dv[k].image_id == id) && id != request.image_id {
                        let k = choose|k: int| 0 <= k < j + 1 && #[trigger] dv[k].image_id == id;
                        assert(k < j);
                    }
                    if (exists|k: int| 0 <= k < j && #[trigger] dv[k].image_id == id) && id == request.image_id {
                        let k = choose|k: int| 0 <= k < j && #[trigger] dv[k].image_id == id;
                        assert(dv[k].image_id < dv[j as int].image_id);
                    }
                }
            }
            j += 1;
        }
        proof {
            let after = draws_view(draws@);
            assert forall|a: int| 0 <= a < after.len() implies #[trigger] after[a] == last_request(
                req,
                after[a].image_id,
            ) by {
                let k = choose|k: int| 0 <= k < m && #[trigger] dv[k] == after[a];
                assert(dv[k] == last_request(req, dv[k].image_id));
            }
            assert forall|id: u32| #[trigger] has_id(after, id) <==> has_id(req, id) && !unchanged(rv, req, id) by {
                if has_id(req, id) {
                    assert(has_id(dv, id));
                    let k = choose|k: int| 0 <= k < dv.len() && #[trigger] dv[k].image_id == id;
                    assert(exists|k2: int| 0 <= k2 < m && #[trigger] dv[k2].image_id == id);
                }
                if exists|k: int| 0 <= k < m && #[trigger] dv[k].image_id == id {
                    assert(has_id(dv, id));
                }
            }
        }
        LocalImagePreviewPlan { removed, draws }
    }

    /// Records a drawn preview; an earlier one with its id must have been forgotten.
    pub fn record(&mut self, request: LocalImagePreviewDraw, temporary_path: Option<String>)
        requires
            old(self).wf(),
            !has_id(rendered_view(old(self).rendered@), request.image_id),
        ensures
            final(self).wf(),
            has_id(rendered_view(final(self).rendered@), request.image_id),
            exists|i: int|
                0 <= i <= old(self).rendered@.len() && final(self).rendered@ == old(self).rendered@.insert(
                    i,
                    (RenderedLocalImagePreview { request, temporary_path }),
                ),
            forall|id: u32|
                id != request.image_id ==> (has_id(rendered_view(final(self).rendered@), id) <==> has_id(
                    rendered_view(old(self).rendered@),
                    id,
                )),
    {
        let ghost before = rendered_view(self.rendered@);
        let ghost model = request@;
        let n = self.rendered.len();
        let mut i: usize = 0;
        while i < n && self.rendered[i].request.image_id < request.image_id
            invariant
                0 <= i <= n,
                n == self.rendered@.len(),
                before == rendered_view(self.rendered@),
                model == request@,
                forall|k: int| 0 <= k < i ==> #[trigger] before[k].image_id < request.image_id,
            decreases n - i,
        {
            assert(before[i as int] == self.rendered@[i as int].request@);
            i += 1;
        }
        if i < n {
            assert(before[i as int] == self.rendered@[i as int].request@);
            assert(before[i as int].image_id != request.image_id);
        }
        self.rendered.insert(i, RenderedLocalImagePreview { request, temporary_path });
        let ghost after = rendered_view(self.rendered@);
        proof {
            assert(after =~= before.insert(i as int, model));
            assert forall|a: int, b: int| 0 <= a < b < after.len() implies #[trigger] after[a].image_id
                < #[trigger] after[b].image_id by {
                if a < i && b < i {
                    assert(before[a].image_id < before[b].image_id);
                } else if a < i && b > i {
                    if a < b - 1 {
                        assert(before[a].image_id < before[b - 1].image_id);
                    }
                    assert(before[i as int].image_id > model.image_id);
                    if b - 1 > i {
                        assert(before[i as int].image_id < before[b - 1].image_id);
                    }
                } else if a == i && b > i {
                    assert(before[i as int].image_id > model.image_id);
                    if b - 1 > i {
                        assert(before[i as int].image_id < before[b - 1].image_id);
                    }
                } else if a > i {
                    assert(before[a - 1].image_id < before[b - 1].image_id);
                }
            }
            assert(after[i as int].image_id == model.image_id);
            assert forall|id: u32| id != model.image_id implies (has_id(after, id) <==> has_id(before, id)) by {
                if has_id(after, id) {
                    let k = choose|k: int| 0 <= k < after.len() && #[trigger] after[k].image_id == id;
                    if k < i {
                        assert(before[k].image_id == id);
                    } else if k > i {
                        assert(before[k - 1].image_id == id);
                    }
                }
                if has_id(before, id) {
                    let k = choose|k: int| 0 <= k < before.len() && #[trigger] before[k].image_id == id;
                    if k < i {
                        assert(after[k].image_id == id);
                    } else {
                        assert(after[k + 1].image_id == id);
                    }
                }
            }
        }
    }
}

/// Largest source image, in pixels, that is converted for a terminal preview.
pub const MAX_PREVIEW_SOURCE_PIXELS: u64 = 12_000_000;

/// Largest side of a converted preview, in pixels.
pub const MAX_PREVIEW_DIMENSION: u32 = 1024;

/// How an image file becomes the PNG file a Kitty file reference needs.
#[derive(Clone, Copy, Debug, PartialEq, Eq, Structural)]
pub enum PreviewConversion {
    /// A PNG is referenced as it is.
    UseAsIs,
    /// Another format is decoded once and written as a thumbnail no larger than `max_dimension`
    /// on either side.
    Thumbnail { max_dimension: u32 },
    /// The image has too many pixels to decode for a preview.
    TooLarge { pixels: u64 },
}

/// The pixel count of an image (a `u64` holds the product of two `u32`s).
pub open spec fn pixel_count(width: u32, height: u32) -> u64 {
    (width * height) as u64
}

/// How an image of the given format and size is prepared for a preview.
pub fn preview_conversion(is_png: bool, width: u32, height: u32) -> (r: PreviewConversion)
    ensures
        r == if is_png {
            PreviewConversion::UseAsIs
        } else if pixel_count(width, height) > MAX_PREVIEW_SOURCE_PIXELS {
            PreviewConversion::TooLarge { pixels: pixel_count(width, height) }
        } else {
            PreviewConversion::Thumbnail { max_dimension: MAX_PREVIEW_DIMENSION }
        },
{
    if is_png {
        return PreviewConversion::UseAsIs;
    }
    assert((width as u64) * (height as u64) <= u64::MAX) by (nonlinear_arith)
        requires
            width <= u32::MAX,
            height <= u32::MAX,
    ;
    let pixels = (width as u64) * (height as u64);
    if pixels > MAX_PREVIEW_SOURCE_PIXELS {
        PreviewConversion::TooLarge { pixels }
    } else {
        PreviewConversion::Thumbnail { max_dimension: MAX_PREVIEW_DIMENSION }
    }
}

/// Once the previews on screen are exactly what a frame requests, the same requests ask for
/// nothing: no deletion and no draw.
pub proof fn law_unchanged_requests_plan_nothing(
    removed: Seq<u32>,
    draws: Seq<DrawModel>,
    rendered: Seq<DrawModel>,
    requests: Seq<DrawModel>,
)
    requires
        is_deduplicated(rendered, requests),
        is_plan_for(removed, draws, rendered, requests),
    ensures
        removed.len() == 0,
        draws.len() == 0,
{
    if removed.len() > 0 {
        let id = removed[0];
        assert(removed.contains(id));
        assert(has_id(rendered, id) <==> has_id(requests, id));
    }
    if draws.len() > 0 {
        let id = draws[0].image_id;
        assert(has_id(draws, id));
        assert(has_id(requests, id));
        assert(has_id(rendered, id));
        let j = choose|j: int| 0 <= j < rendered.len() && #[trigger] rendered[j].image_id == id;
        assert(rendered[j] == last_request(requests, rendered[j].image_id));
        assert(unchanged(rendered, requests, id));
    }
}


impl LocalImagePreviewState {
    /// The bytes that delete preview `image_id` before it is drawn again: the Kitty delete
    /// command while it is on screen, nothing otherwise.
    pub fn delete_before_redraw(&self, image_id: u32) -> (r: Vec<u8>)
        requires
            self.wf(),
        ensures
            r@ == if has_id(rendered_view(self.rendered@), image_id) {
                kitty_delete_bytes(image_id)
            } else {
                Seq::<u8>::empty()
            },
    {
        match self.find(image_id) {
            Some(i) => {
                assert(rendered_view(self.rendered@)[i as int].image_id == image_id);
                kitty_delete_image(image_id)
            },
            None => Vec::new(),
        }
    }
}

/// The bytes that place a preview: save the cursor, move to the placement, the transmitted
/// payload, restore the cursor.
pub open spec fn placement_bytes_spec(x: u16, y: u16, payload: Seq<u8>) -> Seq<u8> {
    save_position_bytes() + move_to_bytes(x, y) + payload + restore_position_bytes()
}

/// The bytes that place the preview of `request` with its transmitted `payload`.
pub fn placement_bytes(request: &LocalImagePreviewDraw, payload: &Vec<u8>) -> (r: Vec<u8>)
    requires
        request.x < u16::MAX,
        request.y < u16::MAX,
    ensures
        r@ == placement_bytes_spec(request.x, request.y, payload@),
{
    let mut out = save_position();
    let moved = move_to(request.x, request.y);
    push_all(&mut out, moved.as_slice());
    push_all(&mut out, payload.as_slice());
    let restore = restore_position();
    push_all(&mut out, restore.as_slice());
    out
}


/// Whether the `image` crate's format guess (`image::guess_format`) takes `data` for a PNG;
/// nothing when it does not recognize the format.
pub uninterp spec fn guessed_png(data: Seq<u8>) -> Option<bool>;

/// The width and height that the `image` crate reads from the header of `data`, in the format
/// it guesses; nothing when it cannot.
pub uninterp spec fn image_dimensions_of(data: Seq<u8>) -> Option<(u32, u32)>;

/// The PNG encoding of the `image` crate's thumbnail (at most `max_dimension` on either side) of
/// the image in `data`; nothing when it cannot be decoded or encoded.
pub uninterp spec fn png_thumbnail_of(data: Seq<u8>, max_dimension: u32) -> Option<Seq<u8>>;

/// `image::guess_format`, told apart as PNG or another format; nothing for an unknown format.
#[verifier::external_body]
fn guess_png(data: &[u8]) -> (r: Option<bool>)
    ensures
        r == guessed_png(data@),
{
    match image::guess_format(data) {
        Ok(image::ImageFormat::Png) => Some(true),
        Ok(_) => Some(false),
        Err(_) => None,
    }
}

/// `image::ImageReader::into_dimensions` on `data` in the format `image::guess_format` gives.
#[verifier::external_body]
fn read_image_dimensions(data: &[u8]) -> (r: Option<(u32, u32)>)
    ensures
        r == image_dimensions_of(data@),
{
    let format = image::guess_format(data).ok()?;
    image::ImageReader::with_format(std::io::Cursor::new(data), format).into_dimensions().ok()
}

/// `image::load_from_memory_with_format`, then `DynamicImage::thumbnail` and
/// `DynamicImage::write_to` as PNG.
#[verifier::external_body]
fn encode_png_thumbnail(data: &[u8], max_dimension: u32) -> (r: Option<Vec<u8>>)
    ensures
        match r {
            Some(bytes) => png_thumbnail_of(data@, max_dimension) == Some(bytes@),
            None => png_thumbnail_of(data@, max_dimension) is None,
        },
{
    let format = image::guess_format(data).ok()?;
    let image = image::load_from_memory_with_format(data, format).ok()?;
    let mut out: Vec<u8> = Vec::new();
    image.thumbnail(max_dimension, max_dimension).write_to(std::io::Cursor::new(&mut out), image::ImageFormat::Png).ok()?;
    Some(out)
}

/// Why an image cannot be previewed.
#[derive(Clone, Copy, Debug, PartialEq, Eq, Structural)]
pub enum PreviewImageError {
    /// Its size cannot be read.
    Dimensions,
    /// It has too many pixels to decode for a preview.
    TooLarge { pixels: u64 },
    /// It cannot be decoded, or its thumbnail cannot be encoded.
    Convert,
}

/// What the bytes of an image file become for a preview: the file itself (`None`), the PNG of
/// its thumbnail, or why it cannot be previewed.
pub open spec fn preview_png_spec(data: Seq<u8>) -> Result<Option<Seq<u8>>, PreviewImageError> {
    if guessed_png(data) == Some(true) {
        Ok(None)
    } else {
        match image_dimensions_of(data) {
            None => Err(PreviewImageError::Dimensions),
            Some((width, height)) => if pixel_count(width, height) > MAX_PREVIEW_SOURCE_PIXELS {
                Err(PreviewImageError::TooLarge { pixels: pixel_count(width, height) })
            } else {
                match png_thumbnail_of(data, MAX_PREVIEW_DIMENSION) {
                    Some(png) => Ok(Some(png)),
                    None => Err(PreviewImageError::Convert),
                }
            },
        }
    }
}

/// Prepares the bytes of an image file for a preview: a PNG is referenced as it is (`None`);
/// another format, not too large, becomes the PNG of its thumbnail.
pub fn preview_png(data: &[u8]) -> (r: Result<Option<Vec<u8>>, PreviewImageError>)
    ensures
        match (r, preview_png_spec(data@)) {
            (Ok(None), Ok(None)) => true,
            (Ok(Some(png)), Ok(Some(expected))) => png@ == expected,
            (Err(e), Err(expected)) => e == expected,
            _ => false,
        },
{
    let is_png = match guess_png(data) {
        Some(png) => png,
        None => false,
    };
    let (width, height) = if is_png {
        (0, 0)
    } else {
        match read_image_dimensions(data) {
            Some(dimensions) => dimensions,
            None => return Err(PreviewImageError::Dimensions),
        }
    };
    match preview_conversion(is_png, width, height) {
        PreviewConversion::UseAsIs => Ok(None),
        PreviewConversion::TooLarge { pixels } => Err(PreviewImageError::TooLarge { pixels }),
        PreviewConversion::Thumbnail { max_dimension } => match encode_png_thumbnail(data, max_dimension) {
            Some(png) => Ok(Some(png)),
            None => Err(PreviewImageError::Convert),
        },
    }
}

} // verus!
