//! The layout engine: scale factors, pagination with its two carried
//! overflow values, and the per-page drawing step.
//!
//! Horizontal positions are exact rationals over the track's minimum
//! repeat distance: an event `dt` ticks into a page sits at
//! `dt * min_note_distance_um / min_distance + staff_offset_um`
//! micrometres. A page break falls where the next event's position would
//! pass the page width; the unused tick gap and the unused phase of the
//! sprocket-hole pattern are both carried into the next page, so the cut
//! pages behave as one continuous strip.

use vstd::prelude::*;

use crate::error::ConvertError;
use crate::event::Event;
use crate::frac::Frac;
use crate::music_box::{note_index, MusicBox};
use crate::settings::Settings;
use crate::svg::document::{Document, Element, GCoord, GElem};
use crate::track::{Track, MAX_TICKS};
use crate::vec2::Vec2;

verus! {

/// One page of the pagination: its events and the tick gap carried from
/// the previous page's last drawn event.
pub ghost struct PageModel {
    /// The events on the page, in time order.
    pub events: Seq<Event>,
    /// The tick gap carried from the previous page.
    pub overflow_ticks: int,
}

/// The state the pagination fold carries: the closed pages, the page
/// being filled, its carried tick gap, and the time its first event had
/// when the page was opened (zero for the first page).
pub ghost struct PagState {
    /// The closed pages, in order.
    pub done: Seq<PageModel>,
    /// The events of the page being filled.
    pub cur: Seq<Event>,
    /// The tick gap carried into the page being filled.
    pub cur_ovf: int,
    /// The reference time horizontal positions are measured from.
    pub first_abs: int,
}

/// Whether an event `dt` ticks into a page would sit past the page
/// width: `dt * scaleX + staffOffset > paperSize`, cleared of the
/// division by `md`.
pub open spec fn exceeds_page(dt: int, mpd: int, md: int, staff: int, paper: int) -> bool {
    dt * mpd + staff * md > paper * md
}

/// The state pagination starts from.
pub open spec fn paginate_init() -> PagState {
    PagState { done: Seq::empty(), cur: Seq::empty(), cur_ovf: 0, first_abs: 0 }
}

/// One event of the pagination fold. An event that would sit past the
/// page width closes the page (never an empty one): the gap from the
/// closed page's last event is carried, and the event opens the next
/// page. Otherwise the event joins the page.
pub open spec fn paginate_step(
    s: PagState,
    e: Event,
    mpd: int,
    md: int,
    staff: int,
    paper: int,
) -> PagState {
    if s.cur.len() > 0 && exceeds_page(e.abs - s.first_abs + s.cur_ovf, mpd, md, staff, paper) {
        PagState {
            done: s.done.push(PageModel { events: s.cur, overflow_ticks: s.cur_ovf }),
            cur: seq![e],
            cur_ovf: e.abs - s.cur.last().abs,
            first_abs: e.abs as int,
        }
    } else {
        PagState { cur: s.cur.push(e), ..s }
    }
}

/// The fold of [`paginate_step`] over an event sequence.
pub open spec fn paginate_run(
    s: PagState,
    evs: Seq<Event>,
    mpd: int,
    md: int,
    staff: int,
    paper: int,
) -> PagState
    decreases evs.len(),
{
    if evs.len() == 0 {
        s
    } else {
        paginate_run(paginate_step(s, evs[0], mpd, md, staff, paper), evs.drop_first(), mpd, md, staff, paper)
    }
}

/// How pagination splits an event sequence into pages: the fold of every
/// event, and then the page still being filled is closed.
pub open spec fn spec_paginate(
    evs: Seq<Event>,
    mpd: int,
    md: int,
    staff: int,
    paper: int,
) -> Seq<PageModel> {
    let s = paginate_run(paginate_init(), evs, mpd, md, staff, paper);
    s.done.push(PageModel { events: s.cur, overflow_ticks: s.cur_ovf })
}

/// The events of all pages, in order.
pub open spec fn pages_flatten(ps: Seq<PageModel>) -> Seq<Event>
    decreases ps.len(),
{
    if ps.len() == 0 {
        Seq::empty()
    } else {
        pages_flatten(ps.drop_last()) + ps.last().events
    }
}

/// The time horizontal positions on page `k` are measured from: the
/// page's first event, except on the first page, which measures from
/// tick zero.
pub open spec fn page_first_ref(pages: Seq<PageModel>, k: int) -> int {
    if k == 0 {
        0
    } else {
        pages[k].events[0].abs as int
    }
}

/// What holds of every reachable pagination state: closed pages are
/// nonempty and time-ordered, the carried gaps link each page's first
/// event to the page before, every event after the first of its page
/// fits within the page width, and each page was closed because its
/// successor's first event did not fit.
pub open spec fn pag_state_inv(s: PagState, mpd: int, md: int, staff: int, paper: int) -> bool {
    &&& forall|k: int| 0 <= k < s.done.len() ==> (#[trigger] s.done[k]).events.len() >= 1
    &&& forall|k: int| 0 <= k < s.done.len() ==> (#[trigger] s.done[k]).overflow_ticks >= 0
    &&& s.cur_ovf >= 0
    &&& s.first_abs >= 0
    &&& (s.done.len() > 0 ==> s.cur.len() > 0)
    &&& (s.done.len() == 0 ==> s.cur_ovf == 0 && s.first_abs == 0)
    &&& (s.done.len() > 0 ==> s.done[0].overflow_ticks == 0)
    &&& forall|k: int|
        1 <= k < s.done.len() ==> (#[trigger] s.done[k]).overflow_ticks == s.done[k].events[0].abs
            - s.done[k - 1].events.last().abs
    &&& (s.done.len() > 0 && s.cur.len() > 0 ==> s.cur_ovf == s.cur[0].abs
        - s.done.last().events.last().abs && s.first_abs == s.cur[0].abs)
    &&& forall|k: int, a: int, b: int|
        0 <= k < s.done.len() && 0 <= a <= b < s.done[k].events.len() ==> (#[trigger] s.done[k].events[a]).abs
            <= (#[trigger] s.done[k].events[b]).abs
    &&& forall|a: int, b: int|
        0 <= a <= b < s.cur.len() ==> (#[trigger] s.cur[a]).abs <= (#[trigger] s.cur[b]).abs
    &&& forall|k: int, j: int|
        0 <= k < s.done.len() && 1 <= j < s.done[k].events.len() ==> !exceeds_page(
            (#[trigger] s.done[k].events[j]).abs - page_first_ref(s.done, k)
                + s.done[k].overflow_ticks,
            mpd,
            md,
            staff,
            paper,
        )
    &&& forall|j: int|
        1 <= j < s.cur.len() ==> !exceeds_page(
            (#[trigger] s.cur[j]).abs - s.first_abs + s.cur_ovf,
            mpd,
            md,
            staff,
            paper,
        )
    &&& forall|k: int|
        1 <= k < s.done.len() ==> exceeds_page(
            (#[trigger] s.done[k]).events[0].abs - page_first_ref(s.done, k - 1) + s.done[k
                - 1].overflow_ticks,
            mpd,
            md,
            staff,
            paper,
        )
    &&& (s.done.len() > 0 ==> exceeds_page(
        s.cur[0].abs - page_first_ref(s.done, s.done.len() - 1) + s.done.last().overflow_ticks,
        mpd,
        md,
        staff,
        paper,
    ))
}

/// Closing one more page flattens to the same events plus that page's.
pub proof fn lemma_pages_flatten_push(ps: Seq<PageModel>, p: PageModel)
    ensures
        pages_flatten(ps.push(p)) == pages_flatten(ps) + p.events,
{
    assert(ps.push(p).drop_last() =~= ps);
    assert(ps.push(p).last() == p);
}

/// One pagination step keeps the state invariant and appends the event.
pub proof fn lemma_paginate_step_inv(
    s: PagState,
    e: Event,
    mpd: int,
    md: int,
    staff: int,
    paper: int,
)
    requires
        pag_state_inv(s, mpd, md, staff, paper),
        s.cur.len() > 0 ==> e.abs >= s.cur.last().abs,
        s.first_abs <= e.abs,
    ensures
        pag_state_inv(paginate_step(s, e, mpd, md, staff, paper), mpd, md, staff, paper),
        pages_flatten(paginate_step(s, e, mpd, md, staff, paper).done) + paginate_step(
            s,
            e,
            mpd,
            md,
            staff,
            paper,
        ).cur == pages_flatten(s.done) + s.cur + seq![e],
        paginate_step(s, e, mpd, md, staff, paper).cur.len() > 0,
        paginate_step(s, e, mpd, md, staff, paper).cur.last() == e,
        paginate_step(s, e, mpd, md, staff, paper).first_abs <= e.abs,
{
    let s2 = paginate_step(s, e, mpd, md, staff, paper);
    if s.cur.len() > 0 && exceeds_page(e.abs - s.first_abs + s.cur_ovf, mpd, md, staff, paper) {
        lemma_pages_flatten_push(s.done, PageModel { events: s.cur, overflow_ticks: s.cur_ovf });
        assert(pages_flatten(s2.done) + s2.cur =~= pages_flatten(s.done) + s.cur + seq![e]);
        assert forall|k: int, j: int|
            0 <= k < s2.done.len() && 1 <= j < s2.done[k].events.len() implies !exceeds_page(
            (#[trigger] s2.done[k].events[j]).abs - page_first_ref(s2.done, k)
                + s2.done[k].overflow_ticks,
            mpd,
            md,
            staff,
            paper,
        ) by {
            if k < s.done.len() {
                assert(s2.done[k] == s.done[k]);
                assert(page_first_ref(s2.done, k) == page_first_ref(s.done, k));
            } else {
                assert(s2.done[k].events == s.cur);
                assert(page_first_ref(s2.done, k) == s.first_abs);
            }
        }
        assert forall|k: int| 1 <= k < s2.done.len() implies exceeds_page(
            (#[trigger] s2.done[k]).events[0].abs - page_first_ref(s2.done, k - 1) + s2.done[k
                - 1].overflow_ticks,
            mpd,
            md,
            staff,
            paper,
        ) by {
            if k < s.done.len() {
                assert(s2.done[k] == s.done[k]);
                assert(page_first_ref(s2.done, k - 1) == page_first_ref(s.done, k - 1));
            } else {
                assert(s2.done[k].events == s.cur);
                assert(page_first_ref(s2.done, k - 1) == page_first_ref(s.done, k - 1));
            }
        }
        assert(page_first_ref(s2.done, s2.done.len() - 1) == s.first_abs);
    } else {
        assert(pages_flatten(s2.done) + s2.cur =~= pages_flatten(s.done) + s.cur + seq![e]);
    }
}

/// The pagination fold keeps the state invariant and appends exactly the
/// events it is given.
pub proof fn lemma_paginate_run_inv(
    s: PagState,
    evs: Seq<Event>,
    mpd: int,
    md: int,
    staff: int,
    paper: int,
)
    requires
        pag_state_inv(s, mpd, md, staff, paper),
        forall|a: int, b: int|
            0 <= a <= b < evs.len() ==> (#[trigger] evs[a]).abs <= (#[trigger] evs[b]).abs,
        evs.len() > 0 && s.cur.len() > 0 ==> evs[0].abs >= s.cur.last().abs,
        evs.len() > 0 ==> s.first_abs <= evs[0].abs,
    ensures
        pag_state_inv(paginate_run(s, evs, mpd, md, staff, paper), mpd, md, staff, paper),
        pages_flatten(paginate_run(s, evs, mpd, md, staff, paper).done) + paginate_run(
            s,
            evs,
            mpd,
            md,
            staff,
            paper,
        ).cur == pages_flatten(s.done) + s.cur + evs,
        evs.len() > 0 || s.cur.len() > 0 ==> paginate_run(s, evs, mpd, md, staff, paper).cur.len()
            > 0,
    decreases evs.len(),
{
    if evs.len() == 0 {
        assert(pages_flatten(s.done) + s.cur + evs =~= pages_flatten(s.done) + s.cur);
    } else {
        let e = evs[0];
        lemma_paginate_step_inv(s, e, mpd, md, staff, paper);
        let s2 = paginate_step(s, e, mpd, md, staff, paper);
        assert forall|a: int, b: int|
            0 <= a <= b < evs.drop_first().len() implies (#[trigger] evs.drop_first()[a]).abs
            <= (#[trigger] evs.drop_first()[b]).abs by {
            assert(evs.drop_first()[a] == evs[a + 1] && evs.drop_first()[b] == evs[b + 1]);
        }
        if evs.drop_first().len() > 0 {
            assert(evs.drop_first()[0] == evs[1]);
            assert(evs[1].abs >= e.abs);
        }
        lemma_paginate_run_inv(s2, evs.drop_first(), mpd, md, staff, paper);
        assert(pages_flatten(s.done) + s.cur + seq![e] + evs.drop_first() =~= pages_flatten(s.done)
            + s.cur + evs);
    }
}

/// A property of every incoming event holds of every event of every
/// page the fold builds.
pub proof fn lemma_paginate_run_pred(
    s: PagState,
    evs: Seq<Event>,
    p: spec_fn(Event) -> bool,
    mpd: int,
    md: int,
    staff: int,
    paper: int,
)
    requires
        forall|j: int| 0 <= j < evs.len() ==> p(#[trigger] evs[j]),
        forall|k: int, j: int|
            0 <= k < s.done.len() && 0 <= j < s.done[k].events.len() ==> p(
                #[trigger] s.done[k].events[j],
            ),
        forall|j: int| 0 <= j < s.cur.len() ==> p(#[trigger] s.cur[j]),
    ensures
        ({
            let r = paginate_run(s, evs, mpd, md, staff, paper);
            &&& forall|k: int, j: int|
                0 <= k < r.done.len() && 0 <= j < r.done[k].events.len() ==> p(
                    #[trigger] r.done[k].events[j],
                )
            &&& forall|j: int| 0 <= j < r.cur.len() ==> p(#[trigger] r.cur[j])
        }),
    decreases evs.len(),
{
    if evs.len() > 0 {
        let e = evs[0];
        let s2 = paginate_step(s, e, mpd, md, staff, paper);
        assert(p(evs[0]));
        assert forall|j: int| 0 <= j < evs.drop_first().len() implies p(
            #[trigger] evs.drop_first()[j],
        ) by {
            assert(evs.drop_first()[j] == evs[j + 1]);
        }
        assert forall|k: int, j: int|
            0 <= k < s2.done.len() && 0 <= j < s2.done[k].events.len() implies p(
            #[trigger] s2.done[k].events[j],
        ) by {
            if k < s.done.len() {
                assert(s2.done[k] == s.done[k]);
            } else {
                assert(s2.done[k].events == s.cur);
            }
        }
        assert forall|j: int| 0 <= j < s2.cur.len() implies p(#[trigger] s2.cur[j]) by {
            if s.cur.len() > 0 && exceeds_page(
                e.abs - s.first_abs + s.cur_ovf,
                mpd,
                md,
                staff,
                paper,
            ) {
                assert(s2.cur == seq![e]);
                assert(s2.cur[j] == e);
            } else {
                assert(s2.cur == s.cur.push(e));
                if j < s.cur.len() {
                    assert(s2.cur[j] == s.cur[j]);
                } else {
                    assert(s2.cur[j] == e);
                }
            }
        }
        lemma_paginate_run_pred(s2, evs.drop_first(), p, mpd, md, staff, paper);
        assert(paginate_run(s, evs, mpd, md, staff, paper) == paginate_run(
            s2,
            evs.drop_first(),
            mpd,
            md,
            staff,
            paper,
        ));
    }
}

/// Law: pagination keeps every event exactly once and in order; every
/// page is nonempty; the first page carries no tick gap, and each later
/// page carries exactly the gap from the previous page's last event to
/// its own first; every event after the first of its page fits within
/// the page width, and the first event of each later page did not fit on
/// the page before.
pub proof fn lemma_pagination_continuity(
    evs: Seq<Event>,
    mpd: int,
    md: int,
    staff: int,
    paper: int,
)
    requires
        forall|a: int, b: int|
            0 <= a <= b < evs.len() ==> (#[trigger] evs[a]).abs <= (#[trigger] evs[b]).abs,
        evs.len() >= 1,
    ensures
        ({
            let pages = spec_paginate(evs, mpd, md, staff, paper);
            &&& pages.len() >= 1
            &&& forall|k: int| 0 <= k < pages.len() ==> (#[trigger] pages[k]).events.len() >= 1
            &&& pages_flatten(pages) == evs
            &&& pages[0].overflow_ticks == 0
            &&& forall|k: int| 0 <= k < pages.len() ==> (#[trigger] pages[k]).overflow_ticks >= 0
            &&& forall|k: int|
                1 <= k < pages.len() ==> (#[trigger] pages[k]).overflow_ticks
                    == pages[k].events[0].abs - pages[k - 1].events.last().abs
            &&& forall|k: int, a: int, b: int|
                0 <= k < pages.len() && 0 <= a <= b < pages[k].events.len() ==> (#[trigger] pages[k].events[a]).abs
                    <= (#[trigger] pages[k].events[b]).abs
            &&& forall|k: int, j: int|
                0 <= k < pages.len() && 1 <= j < pages[k].events.len() ==> !exceeds_page(
                    (#[trigger] pages[k].events[j]).abs - page_first_ref(pages, k)
                        + pages[k].overflow_ticks,
                    mpd,
                    md,
                    staff,
                    paper,
                )
            &&& forall|k: int|
                1 <= k < pages.len() ==> exceeds_page(
                    (#[trigger] pages[k]).events[0].abs - page_first_ref(pages, k - 1) + pages[k
                        - 1].overflow_ticks,
                    mpd,
                    md,
                    staff,
                    paper,
                )
        }),
{
    lemma_paginate_run_inv(paginate_init(), evs, mpd, md, staff, paper);
    let s = paginate_run(paginate_init(), evs, mpd, md, staff, paper);
    let pages = spec_paginate(evs, mpd, md, staff, paper);
    lemma_pages_flatten_push(s.done, PageModel { events: s.cur, overflow_ticks: s.cur_ovf });
    assert(pages_flatten(pages) =~= evs);
    assert forall|k: int, j: int|
        0 <= k < pages.len() && 1 <= j < pages[k].events.len() implies !exceeds_page(
        (#[trigger] pages[k].events[j]).abs - page_first_ref(pages, k) + pages[k].overflow_ticks,
        mpd,
        md,
        staff,
        paper,
    ) by {
        if k < s.done.len() {
            assert(pages[k] == s.done[k]);
            assert(page_first_ref(pages, k) == page_first_ref(s.done, k));
        } else {
            assert(pages[k].events == s.cur);
            assert(page_first_ref(pages, k) == s.first_abs);
        }
    }
    assert forall|k: int| 1 <= k < pages.len() implies exceeds_page(
        (#[trigger] pages[k]).events[0].abs - page_first_ref(pages, k - 1) + pages[k
            - 1].overflow_ticks,
        mpd,
        md,
        staff,
        paper,
    ) by {
        if k < s.done.len() {
            assert(pages[k] == s.done[k]);
            assert(page_first_ref(pages, k - 1) == page_first_ref(s.done, k - 1));
        } else {
            assert(pages[k].events == s.cur);
            assert(page_first_ref(pages, k - 1) == page_first_ref(s.done, k - 1));
        }
    }
}

/// The drawn width of each page in ticks, summed: what each page spans
/// from its first event to its last, plus the gap it carries.
pub open spec fn total_page_width(pages: Seq<PageModel>) -> int
    decreases pages.len(),
{
    if pages.len() == 0 {
        0
    } else {
        total_page_width(pages.drop_last()) + (pages.last().events.last().abs
            - pages.last().events[0].abs + pages.last().overflow_ticks)
    }
}

/// The widths of linked pages telescope: they add up to the time from
/// the very first event to the very last.
proof fn lemma_total_width_telescopes(pages: Seq<PageModel>)
    requires
        pages.len() >= 1,
        forall|k: int| 0 <= k < pages.len() ==> (#[trigger] pages[k]).events.len() >= 1,
        pages[0].overflow_ticks == 0,
        forall|k: int|
            1 <= k < pages.len() ==> (#[trigger] pages[k]).overflow_ticks
                == pages[k].events[0].abs - pages[k - 1].events.last().abs,
    ensures
        total_page_width(pages) == pages.last().events.last().abs - pages[0].events[0].abs,
    decreases pages.len(),
{
    if pages.len() == 1 {
        assert(pages.drop_last().len() == 0);
        assert(total_page_width(pages.drop_last()) == 0);
        assert(pages.last() == pages[0]);
    } else {
        let front = pages.drop_last();
        assert(forall|k: int| 0 <= k < front.len() ==> front[k] == pages[k]);
        lemma_total_width_telescopes(front);
        assert(front.last() == pages[pages.len() - 2]);
        assert(pages.last().overflow_ticks == pages.last().events[0].abs - pages[pages.len()
            - 2].events.last().abs);
    }
}

/// A non-empty sequence of non-empty pages flattens to a sequence that
/// starts with the first page's first event.
proof fn lemma_pages_flatten_first(pages: Seq<PageModel>)
    requires
        pages.len() >= 1,
        forall|k: int| 0 <= k < pages.len() ==> (#[trigger] pages[k]).events.len() >= 1,
    ensures
        pages_flatten(pages).len() >= 1,
        pages_flatten(pages)[0] == pages[0].events[0],
        pages_flatten(pages).last() == pages.last().events.last(),
    decreases pages.len(),
{
    assert(pages.last() == pages[pages.len() - 1]);
    assert(pages[pages.len() - 1].events.len() >= 1);
    if pages.len() == 1 {
        assert(pages.drop_last().len() == 0);
        assert(pages_flatten(pages.drop_last()) == Seq::<Event>::empty());
        assert(pages_flatten(pages) =~= pages[0].events);
    } else {
        let front = pages.drop_last();
        assert(forall|k: int| 0 <= k < front.len() ==> front[k] == pages[k]);
        lemma_pages_flatten_first(front);
        assert(pages_flatten(pages) == pages_flatten(front) + pages.last().events);
        assert(pages_flatten(pages)[0] == pages_flatten(front)[0]);
    }
}

/// Law: cutting the strip into pages neither stretches nor shrinks it.
/// The drawn widths of all pages sum to exactly the ticks elapsed
/// between the first kept event and the last.
pub proof fn lemma_pagination_total_span(
    evs: Seq<Event>,
    mpd: int,
    md: int,
    staff: int,
    paper: int,
)
    requires
        forall|a: int, b: int|
            0 <= a <= b < evs.len() ==> (#[trigger] evs[a]).abs <= (#[trigger] evs[b]).abs,
        evs.len() >= 1,
    ensures
        total_page_width(spec_paginate(evs, mpd, md, staff, paper)) == evs.last().abs
            - evs[0].abs,
{
    let pages = spec_paginate(evs, mpd, md, staff, paper);
    lemma_pagination_continuity(evs, mpd, md, staff, paper);
    lemma_total_width_telescopes(pages);
    lemma_pages_flatten_first(pages);
}

/// A property of every incoming event holds of every event of every
/// page of the pagination.
pub proof fn lemma_pagination_pred(
    evs: Seq<Event>,
    p: spec_fn(Event) -> bool,
    mpd: int,
    md: int,
    staff: int,
    paper: int,
)
    requires
        forall|j: int| 0 <= j < evs.len() ==> p(#[trigger] evs[j]),
    ensures
        ({
            let pages = spec_paginate(evs, mpd, md, staff, paper);
            forall|k: int, j: int|
                0 <= k < pages.len() && 0 <= j < pages[k].events.len() ==> p(
                    #[trigger] pages[k].events[j],
                )
        }),
{
    lemma_paginate_run_pred(paginate_init(), evs, p, mpd, md, staff, paper);
    let s = paginate_run(paginate_init(), evs, mpd, md, staff, paper);
    let pages = spec_paginate(evs, mpd, md, staff, paper);
    assert forall|k: int, j: int|
        0 <= k < pages.len() && 0 <= j < pages[k].events.len() implies p(
        #[trigger] pages[k].events[j],
    ) by {
        if k < s.done.len() {
            assert(pages[k] == s.done[k]);
        } else {
            assert(pages[k].events == s.cur);
        }
    }
}

/// The note lines of a page: one per playable note, evenly spaced from
/// the staff offset down, each running from the staff offset to the
/// horizontal position of the page's last event.
pub open spec fn note_lines_geometry(mb: MusicBox, st: Settings, md: int, w: int) -> Seq<GElem> {
    let cnt = mb.notes@.len() as int;
    let c1 = cnt - 1;
    let mpd = mb.min_note_distance_um as int;
    let staff = st.staff_offset_um as int;
    Seq::new(
        cnt as nat,
        |i: int|
            GElem::Line {
                x1: GCoord { num: staff, den: 1 },
                y1: GCoord { num: staff * c1 + i * mb.strip_height_um, den: c1 },
                x2: GCoord { num: staff * md + w * mpd, den: md },
                y2: GCoord { num: staff * c1 + i * mb.strip_height_um, den: c1 },
                stroke: st.staff_line_colour@,
                width: GCoord { num: st.staff_line_thickness_um as int, den: 1 },
            },
    )
}

/// The bounding frame of a page: left, right, top and bottom edges, the
/// top and bottom offset outward from the outermost note lines.
pub open spec fn bounding_box_geometry(mb: MusicBox, st: Settings, md: int, w: int) -> Seq<GElem> {
    let mpd = mb.min_note_distance_um as int;
    let staff = st.staff_offset_um as int;
    let bb = st.staff_bounding_box_top_bottom_distance_um as int;
    let strip = mb.strip_height_um as int;
    let y_top = staff - bb;
    let y_bot = strip + staff + bb;
    let x_left = GCoord { num: staff, den: 1 };
    let x_right = GCoord { num: staff * md + w * mpd, den: md };
    let width = GCoord { num: st.staff_bounding_box_thickness_um as int, den: 1 };
    seq![
        GElem::Line {
            x1: x_left,
            y1: GCoord { num: y_top, den: 1 },
            x2: x_left,
            y2: GCoord { num: y_bot, den: 1 },
            stroke: st.staff_bounding_box_left_right_colour@,
            width: width,
        },
        GElem::Line {
            x1: x_right,
            y1: GCoord { num: y_top, den: 1 },
            x2: x_right,
            y2: GCoord { num: y_bot, den: 1 },
            stroke: st.staff_bounding_box_left_right_colour@,
            width: width,
        },
        GElem::Line {
            x1: x_left,
            y1: GCoord { num: y_top, den: 1 },
            x2: x_right,
            y2: GCoord { num: y_top, den: 1 },
            stroke: st.staff_bounding_box_top_bottom_colour@,
            width: width,
        },
        GElem::Line {
            x1: x_left,
            y1: GCoord { num: y_bot, den: 1 },
            x2: x_right,
            y2: GCoord { num: y_bot, den: 1 },
            stroke: st.staff_bounding_box_top_bottom_colour@,
            width: width,
        },
    ]
}

/// The note holes of a page: one circle per event, horizontally at the
/// event's position, vertically on the line of its note, counted so that
/// the first listed note draws nearest the bottom.
pub open spec fn holes_geometry(
    events: Seq<Event>,
    ovf: int,
    mb: MusicBox,
    st: Settings,
    md: int,
) -> Seq<GElem> {
    let first = events[0].abs as int;
    let cnt = mb.notes@.len() as int;
    let c1 = cnt - 1;
    let mpd = mb.min_note_distance_um as int;
    let staff = st.staff_offset_um as int;
    Seq::new(
        events.len(),
        |j: int|
            GElem::Circle {
                cx: GCoord { num: (events[j].abs + ovf - first) * mpd + staff * md, den: md },
                cy: GCoord {
                    num: (cnt - (note_index(mb.notes@, events[j].note) + 1)) * mb.strip_height_um
                        + staff * c1,
                    den: c1,
                },
                radius: GCoord { num: st.hole_radius_um as int, den: 1 },
                fill: st.hole_colour@,
            },
    )
}

/// How many sprocket periods fit in the page's drawn span after the
/// carried phase is taken out; negative span still places the first hole.
pub open spec fn sprocket_count(w: int, ovfs: int, mb: MusicBox, st: Settings, md: int) -> int {
    let mpd = mb.min_note_distance_um as int;
    let area = w * mpd - ovfs;
    if area < 0 {
        0
    } else {
        area / (st.sprocket_hole_distance_um * md)
    }
}

/// The sprocket holes of a page, when enabled: pairs of circles on two
/// rows outside the staff, at period intervals starting at the staff
/// offset plus the carried phase.
pub open spec fn sprockets_geometry(
    w: int,
    ovfs: int,
    mb: MusicBox,
    st: Settings,
    md: int,
) -> Seq<GElem> {
    if !st.sprocket_hole_enable {
        Seq::empty()
    } else {
        let staff = st.staff_offset_um as int;
        let top_y = staff - st.sprocket_hole_distance_staff_um;
        let bot_y = staff + mb.strip_height_um + st.sprocket_hole_distance_staff_um;
        let spmd = st.sprocket_hole_distance_um * md;
        let k = sprocket_count(w, ovfs, mb, st, md);
        Seq::new(
            (2 * (k + 1)) as nat,
            |t: int|
                GElem::Circle {
                    cx: GCoord { num: staff * md + ovfs + (t / 2) * spmd, den: md },
                    cy: if t % 2 == 0 {
                        GCoord { num: top_y, den: 1 }
                    } else {
                        GCoord { num: bot_y, den: 1 }
                    },
                    radius: GCoord { num: st.hole_radius_um as int, den: 1 },
                    fill: st.hole_colour@,
                },
        )
    }
}

/// The whole geometry of one page, in drawing order: note lines, frame,
/// note holes, sprocket holes.
pub open spec fn page_geometry(
    events: Seq<Event>,
    ovf: int,
    ovfs: int,
    mb: MusicBox,
    st: Settings,
    md: int,
) -> Seq<GElem> {
    let w = events.last().abs - events[0].abs + ovf;
    note_lines_geometry(mb, st, md, w) + bounding_box_geometry(mb, st, md, w) + holes_geometry(
        events,
        ovf,
        mb,
        st,
        md,
    ) + sprockets_geometry(w, ovfs, mb, st, md)
}

/// The sprocket phase handed to the next page: the page width minus the
/// staff offset minus the position of the last hole placed (minus nothing
/// when the pattern is disabled).
pub open spec fn next_sprocket_overflow(
    w: int,
    ovfs: int,
    mb: MusicBox,
    st: Settings,
    md: int,
) -> int {
    let staff = st.staff_offset_um as int;
    let paper = st.paper_size_x_um as int;
    if !st.sprocket_hole_enable {
        (paper - staff) * md
    } else {
        let spmd = st.sprocket_hole_distance_um * md;
        let k = sprocket_count(w, ovfs, mb, st, md);
        (paper - staff) * md - (staff * md + ovfs + k * spmd)
    }
}

/// The sprocket phase carried into page `k` of a pagination: zero for the
/// first page, then what each draw hands forward.
pub open spec fn sprocket_carry(
    pages: Seq<PageModel>,
    k: int,
    mb: MusicBox,
    st: Settings,
    md: int,
) -> int
    decreases k,
{
    if k <= 0 {
        0
    } else {
        let p = pages[k - 1];
        let w = p.events.last().abs - p.events[0].abs + p.overflow_ticks;
        next_sprocket_overflow(w, sprocket_carry(pages, k - 1, mb, st, md), mb, st, md)
    }
}

/// Every carried sprocket phase stays inside this bound, which keeps the
/// arithmetic inside `i128`.
pub open spec fn sprocket_overflow_bound(mb: MusicBox, st: Settings, md: int) -> int {
    (st.paper_size_x_um + 2 * st.staff_offset_um) * md + MAX_TICKS * mb.min_note_distance_um
        + st.sprocket_hole_distance_um * md
}

/// The carried sprocket phase of the next page stays inside the bound.
pub proof fn lemma_next_sprocket_overflow_bound(
    w: int,
    ovfs: int,
    mb: MusicBox,
    st: Settings,
    md: int,
)
    requires
        st.wf(),
        mb.wf(),
        md >= 1,
        0 <= w <= MAX_TICKS,
        -2 * sprocket_overflow_bound(mb, st, md) <= ovfs <= sprocket_overflow_bound(mb, st, md),
    ensures
        -2 * sprocket_overflow_bound(mb, st, md) <= next_sprocket_overflow(w, ovfs, mb, st, md)
            <= sprocket_overflow_bound(mb, st, md),
{
    let staff = st.staff_offset_um as int;
    let paper = st.paper_size_x_um as int;
    let mpd = mb.min_note_distance_um as int;
    let sp = st.sprocket_hole_distance_um as int;
    let b = sprocket_overflow_bound(mb, st, md);
    assert(0 <= w * mpd <= MAX_TICKS * mpd) by (nonlinear_arith)
        requires
            0 <= w <= MAX_TICKS,
            0 <= mpd,
    ;
    assert((paper + 2 * staff) * md >= 0 && sp * md >= 0) by (nonlinear_arith)
        requires
            0 <= paper,
            0 <= staff,
            0 <= sp,
            1 <= md,
    ;
    assert(-((paper + 2 * staff) * md) <= (paper - staff) * md <= (paper + 2 * staff) * md)
        by (nonlinear_arith)
        requires
            0 <= paper,
            0 <= staff,
            1 <= md,
    ;
    assert(-((paper + 2 * staff) * md) <= (paper - 2 * staff) * md <= (paper + 2 * staff) * md)
        by (nonlinear_arith)
        requires
            0 <= paper,
            0 <= staff,
            1 <= md,
    ;
    assert(MAX_TICKS * mpd >= 0);
    if st.sprocket_hole_enable {
        let spmd = sp * md;
        let area = w * mpd - ovfs;
        let c = (paper - 2 * staff) * md;
        assert(spmd >= 1) by (nonlinear_arith)
            requires
                spmd == sp * md,
                sp >= 1,
                md >= 1,
        ;
        if area < 0 {
            assert(ovfs > w * mpd);
            assert((paper - staff) * md - (staff * md + ovfs + 0 * spmd) == c - ovfs)
                by (nonlinear_arith)
                requires
                    c == (paper - 2 * staff) * md,
            ;
            assert(next_sprocket_overflow(w, ovfs, mb, st, md) == c - ovfs);
        } else {
            let k = area / spmd;
            vstd::arithmetic::div_mod::lemma_fundamental_div_mod(area, spmd);
            vstd::arithmetic::div_mod::lemma_mod_bound(area, spmd);
            assert((paper - staff) * md - (staff * md + ovfs + k * spmd) == c - w * mpd + area
                % spmd) by (nonlinear_arith)
                requires
                    area == spmd * k + area % spmd,
                    area == w * mpd - ovfs,
                    c == (paper - 2 * staff) * md,
            ;
            assert(next_sprocket_overflow(w, ovfs, mb, st, md) == c - w * mpd + area % spmd);
        }
    }
}

/// One page of the pagination, as built by [`paginate`]: the events that
/// fit on the page, and the tick gap carried from the previous page.
#[derive(Clone, Debug)]
pub struct Page {
    /// The events on the page, in time order.
    pub events: Vec<Event>,
    /// The tick gap carried from the previous page's last event.
    pub overflow_ticks: u64,
}

impl View for Page {
    type V = PageModel;

    open spec fn view(&self) -> PageModel {
        PageModel { events: self.events@, overflow_ticks: self.overflow_ticks as int }
    }
}

/// The pages a sequence of built pages stands for.
pub open spec fn pages_view(ps: Seq<Page>) -> Seq<PageModel> {
    Seq::new(ps.len(), |k: int| ps[k]@)
}

/// Splits the track's events into pages, each page holding what fits
/// within the page width at the horizontal scale `scale.x`, carrying the
/// unused tick gap across every break. The result is exactly the fold
/// [`spec_paginate`] of the track's events.
pub fn paginate(track: &Track, scale: &Vec2<Frac>, settings: &Settings) -> (r: Vec<Page>)
    requires
        track.wf(),
        settings.wf(),
        scale.x.wf(),
        0 <= scale.x.num <= crate::music_box::LENGTH_LIMIT_UM,
    ensures
        pages_view(r@) == spec_paginate(
            track.inner@,
            scale.x.num as int,
            scale.x.den as int,
            settings.staff_offset_um as int,
            settings.paper_size_x_um as int,
        ),
{
    let ghost mpd = scale.x.num as int;
    let ghost md = scale.x.den as int;
    let ghost staff = settings.staff_offset_um as int;
    let ghost paper = settings.paper_size_x_um as int;
    let ghost evs = track.inner@;

    let n = track.inner.len();
    let mut done: Vec<Page> = Vec::new();
    let mut cur: Vec<Event> = Vec::new();
    let mut cur_ovf: u64 = 0;
    let mut first_abs: u64 = 0;
    let ghost mut gs = paginate_init();
    let mut i: usize = 0;

    proof {
        assert(evs.skip(0) =~= evs);
    }

    while i < n
        invariant
            i <= n,
            n == evs.len(),
            evs == track.inner@,
            track.wf(),
            settings.wf(),
            scale.x.wf(),
            0 <= scale.x.num <= crate::music_box::LENGTH_LIMIT_UM,
            mpd == scale.x.num as int,
            md == scale.x.den as int,
            staff == settings.staff_offset_um as int,
            paper == settings.paper_size_x_um as int,
            pages_view(done@) == gs.done,
            cur@ == gs.cur,
            cur_ovf == gs.cur_ovf,
            first_abs == gs.first_abs,
            cur_ovf <= MAX_TICKS,
            i == 0 ==> cur@.len() == 0 && first_abs == 0,
            i > 0 ==> first_abs <= evs[i - 1].abs,
            cur@.len() > 0 ==> i > 0 && cur@.last() == evs[i - 1],
            paginate_run(gs, evs.skip(i as int), mpd, md, staff, paper) == paginate_run(
                paginate_init(),
                evs,
                mpd,
                md,
                staff,
                paper,
            ),
        decreases n - i,
    {
        let e = track.inner[i];
        proof {
            assert(evs.skip(i as int)[0] == evs[i as int]);
            assert(evs.skip(i as int).drop_first() =~= evs.skip(i as int + 1));
            if i > 0 {
                assert(evs[i - 1].abs <= evs[i as int].abs);
            }
        }
        let mut split = false;
        if cur.len() > 0 {
            proof {
                assert(e.abs <= MAX_TICKS);
            }
            let dt: u64 = e.abs - first_abs + cur_ovf;
            proof {
                assert(dt * mpd <= 0x4000_0000_0000_0000_0000_0000 && (paper - staff) * md
                    <= 0x4000_0000_0000_0000_0000_0000 && (paper - staff) * md
                    >= -0x4000_0000_0000_0000_0000_0000) by (nonlinear_arith)
                    requires
                        0 <= dt <= 0x2000_0000_0000_0000,
                        0 <= mpd <= 0x4000_0000,
                        0 <= staff <= 0x4000_0000,
                        0 <= paper <= 0x4000_0000,
                        0 <= md <= 0xFFFF_FFFF_FFFF_FFFF,
                ;
            }
            let lhs: i128 = (dt as i128) * scale.x.num;
            let rhs: i128 = (settings.paper_size_x_um as i128 - settings.staff_offset_um as i128)
                * (scale.x.den as i128);
            proof {
                assert((dt * mpd > (paper - staff) * md) == exceeds_page(
                    dt as int,
                    mpd,
                    md,
                    staff,
                    paper,
                )) by (nonlinear_arith);
            }
            if lhs > rhs {
                split = true;
            }
        }
        if split {
            let last_abs = cur[cur.len() - 1].abs;
            done.push(Page { events: cur, overflow_ticks: cur_ovf });
            cur = Vec::new();
            cur_ovf = e.abs - last_abs;
            first_abs = e.abs;
            cur.push(e);
            proof {
                assert(pages_view(done@) =~= gs.done.push(
                    PageModel { events: gs.cur, overflow_ticks: gs.cur_ovf },
                ));
                assert(cur@ =~= seq![e]);
            }
        } else {
            cur.push(e);
        }
        proof {
            gs = paginate_step(gs, e, mpd, md, staff, paper);
        }
        i += 1;
    }

    proof {
        assert(evs.skip(n as int) =~= Seq::<Event>::empty());
    }
    done.push(Page { events: cur, overflow_ticks: cur_ovf });
    proof {
        assert(pages_view(done@) =~= spec_paginate(evs, mpd, md, staff, paper));
    }
    done
}

/// Draws one page: the note lines, the bounding frame, one hole per
/// event, and, when enabled, the sprocket-hole pattern continued at the
/// carried phase. Returns the page's geometry and the sprocket phase to
/// carry into the next page. A pure function of the page's events and
/// the two carried overflow values.
pub fn draw_page(
    notes: &Vec<Event>,
    overflow_notes: u64,
    overflow_sprockets: Frac,
    music_box: &MusicBox,
    settings: &Settings,
    scale: &Vec2<Frac>,
) -> (r: (Document, Frac))
    requires
        music_box.wf(),
        settings.wf(),
        music_box.notes@.len() >= 2,
        notes@.len() >= 1,
        forall|i: int, j: int|
            0 <= i <= j < notes@.len() ==> (#[trigger] notes@[i]).abs <= (#[trigger] notes@[j]).abs,
        forall|i: int| 0 <= i < notes@.len() ==> music_box.notes@.contains(
            (#[trigger] notes@[i]).note,
        ),
        forall|i: int| 0 <= i < notes@.len() ==> (#[trigger] notes@[i]).abs <= MAX_TICKS,
        notes@.last().abs - notes@[0].abs + overflow_notes <= MAX_TICKS,
        scale.x.num == music_box.min_note_distance_um as int,
        scale.x.den >= 1,
        overflow_sprockets.den == scale.x.den,
        -2 * sprocket_overflow_bound(*music_box, *settings, scale.x.den as int)
            <= overflow_sprockets.num <= sprocket_overflow_bound(
            *music_box,
            *settings,
            scale.x.den as int,
        ),
    ensures
        ({
            let md = scale.x.den as int;
            let w = notes@.last().abs - notes@[0].abs + overflow_notes;
            &&& r.0@ == page_geometry(
                notes@,
                overflow_notes as int,
                overflow_sprockets.num as int,
                *music_box,
                *settings,
                md,
            )
            &&& r.1.den == scale.x.den
            &&& r.1.num == next_sprocket_overflow(
                w,
                overflow_sprockets.num as int,
                *music_box,
                *settings,
                md,
            )
            &&& -2 * sprocket_overflow_bound(*music_box, *settings, md) <= r.1.num
                <= sprocket_overflow_bound(*music_box, *settings, md)
        }),
{
    let ghost md_g = scale.x.den as int;
    let ghost ovfs_g = overflow_sprockets.num as int;
    let ghost w_g = notes@.last().abs - notes@[0].abs + overflow_notes;
    let ghost lines_g = note_lines_geometry(*music_box, *settings, md_g, w_g);
    let ghost bbox_g = bounding_box_geometry(*music_box, *settings, md_g, w_g);
    let ghost holes_g = holes_geometry(notes@, overflow_notes as int, *music_box, *settings, md_g);
    let ghost spr_g = sprockets_geometry(w_g, ovfs_g, *music_box, *settings, md_g);

    let cnt = music_box.note_count();
    let c1: u64 = (cnt - 1) as u64;
    let md: u64 = scale.x.den;
    let mpd: u64 = music_box.min_note_distance_um;
    let staff: u64 = settings.staff_offset_um;
    let strip: u64 = music_box.strip_height_um;

    let first: u64 = notes[0].abs;
    let last: u64 = notes[notes.len() - 1].abs;
    let w: u64 = last - first + overflow_notes;

    proof {
        assert(staff * md <= 0x4000_0000 * 0xFFFF_FFFF_FFFF_FFFF && w * mpd <= MAX_TICKS
            * 0x4000_0000 && 0 <= staff * md && 0 <= w * mpd) by (nonlinear_arith)
            requires
                0 <= staff <= 0x4000_0000,
                0 <= md <= 0xFFFF_FFFF_FFFF_FFFF,
                0 <= w <= MAX_TICKS,
                0 <= mpd <= 0x4000_0000,
        ;
    }
    let x_right_num: i128 = (staff as i128) * (md as i128) + (w as i128) * (mpd as i128);

    let mut document = Document::default();

    // Note lines: one per playable note, evenly spaced.
    let mut i: usize = 0;
    while i < cnt
        invariant
            i <= cnt,
            cnt == music_box.notes@.len(),
            2 <= cnt <= 128,
            c1 == cnt - 1,
            md == scale.x.den,
            mpd == music_box.min_note_distance_um,
            staff == settings.staff_offset_um,
            strip == music_box.strip_height_um,
            strip <= 0x4000_0000,
            staff <= 0x4000_0000,
            md >= 1,
            x_right_num == staff * md + w_g * mpd,
            w_g == w,
            md_g == md as int,
            lines_g == note_lines_geometry(*music_box, *settings, md_g, w_g),
            document@.len() == i,
            forall|q: int| 0 <= q < i ==> document@[q] == lines_g[q],
        decreases cnt - i,
    {
        proof {
            assert(staff * c1 + i * strip <= 0x4000_0000 * 128 + 128 * 0x4000_0000 && 0 <= staff
                * c1 + i * strip) by (nonlinear_arith)
                requires
                    0 <= staff <= 0x4000_0000,
                    0 <= c1 <= 128,
                    0 <= i <= 128,
                    0 <= strip <= 0x4000_0000,
            ;
        }
        let y_num: i128 = (staff as i128) * (c1 as i128) + (i as i128) * (strip as i128);
        let line = crate::svg_writer::line::Line::new_builder()
            .set_start(Frac { num: staff as i128, den: 1 }, Frac { num: y_num, den: c1 })
            .set_end(Frac { num: x_right_num, den: md }, Frac { num: y_num, den: c1 })
            .set_stroke(settings.staff_line_colour.clone())
            .set_stroke_width(Frac { num: settings.staff_line_thickness_um as i128, den: 1 })
            .finish();
        document.append(Element::Line(line));
        i += 1;
    }
    proof {
        assert(document@ =~= lines_g);
    }

    // The bounding frame: left, right, top, bottom.
    let bb: u64 = settings.staff_bounding_box_top_bottom_distance_um;
    let y_top_num: i128 = staff as i128 - bb as i128;
    let y_bot_num: i128 = strip as i128 + staff as i128 + bb as i128;
    let x_left = Frac { num: staff as i128, den: 1 };
    let x_right = Frac { num: x_right_num, den: md };
    let frame_width = Frac { num: settings.staff_bounding_box_thickness_um as i128, den: 1 };
    let left = crate::svg_writer::line::Line::new_builder()
        .set_start(x_left, Frac { num: y_top_num, den: 1 })
        .set_end(x_left, Frac { num: y_bot_num, den: 1 })
        .set_stroke(settings.staff_bounding_box_left_right_colour.clone())
        .set_stroke_width(frame_width)
        .finish();
    document.append(Element::Line(left));
    let right = crate::svg_writer::line::Line::new_builder()
        .set_start(x_right, Frac { num: y_top_num, den: 1 })
        .set_end(x_right, Frac { num: y_bot_num, den: 1 })
        .set_stroke(settings.staff_bounding_box_left_right_colour.clone())
        .set_stroke_width(frame_width)
        .finish();
    document.append(Element::Line(right));
    let top = crate::svg_writer::line::Line::new_builder()
        .set_start(x_left, Frac { num: y_top_num, den: 1 })
        .set_end(x_right, Frac { num: y_top_num, den: 1 })
        .set_stroke(settings.staff_bounding_box_top_bottom_colour.clone())
        .set_stroke_width(frame_width)
        .finish();
    document.append(Element::Line(top));
    let bottom = crate::svg_writer::line::Line::new_builder()
        .set_start(x_left, Frac { num: y_bot_num, den: 1 })
        .set_end(x_right, Frac { num: y_bot_num, den: 1 })
        .set_stroke(settings.staff_bounding_box_top_bottom_colour.clone())
        .set_stroke_width(frame_width)
        .finish();
    document.append(Element::Line(bottom));
    let ghost base1 = lines_g + bbox_g;
    proof {
        assert(document@ =~= base1);
    }

    // Note holes: one circle per event.
    let mut j: usize = 0;
    while j < notes.len()
        invariant
            j <= notes@.len(),
            notes@.len() >= 1,
            cnt == music_box.notes@.len(),
            2 <= cnt <= 128,
            c1 == cnt - 1,
            md == scale.x.den,
            mpd == music_box.min_note_distance_um,
            staff == settings.staff_offset_um,
            strip == music_box.strip_height_um,
            strip <= 0x4000_0000,
            staff <= 0x4000_0000,
            mpd <= 0x4000_0000,
            md >= 1,
            music_box.wf(),
            settings.wf(),
            first == notes@[0].abs,
            overflow_notes <= MAX_TICKS,
            notes@.last().abs - notes@[0].abs + overflow_notes <= MAX_TICKS,
            md_g == md as int,
            forall|a: int, b: int|
                0 <= a <= b < notes@.len() ==> (#[trigger] notes@[a]).abs <= (#[trigger] notes@[b]).abs,
            forall|a: int| 0 <= a < notes@.len() ==> music_box.notes@.contains(
                (#[trigger] notes@[a]).note,
            ),
            forall|a: int| 0 <= a < notes@.len() ==> (#[trigger] notes@[a]).abs <= MAX_TICKS,
            holes_g == holes_geometry(notes@, overflow_notes as int, *music_box, *settings, md_g),
            document@.len() == base1.len() + j,
            forall|q: int| 0 <= q < base1.len() ==> document@[q] == base1[q],
            forall|q: int| 0 <= q < j ==> document@[base1.len() + q] == holes_g[q],
        decreases notes@.len() - j,
    {
        let ev = notes[j];
        proof {
            assert(music_box.notes@.contains(notes@[j as int].note));
        }
        let idx = music_box.get_index(&ev.note).unwrap();
        proof {
            let nidx = note_index(music_box.notes@, ev.note);
            assert(0 <= nidx < cnt && music_box.notes@[nidx] == ev.note);
            assert(idx == nidx);
        }
        proof {
            assert(notes@[j as int].abs <= notes@.last().abs);
        }
        let dt: u64 = ev.abs + overflow_notes - first;
        proof {
            assert(dt <= MAX_TICKS);
            assert(dt * mpd <= MAX_TICKS * 0x4000_0000 && 0 <= dt * mpd) by (nonlinear_arith)
                requires
                    0 <= dt <= MAX_TICKS,
                    0 <= mpd <= 0x4000_0000,
            ;
            assert(staff * md <= 0x4000_0000 * 0xFFFF_FFFF_FFFF_FFFF && 0 <= staff * md)
                by (nonlinear_arith)
                requires
                    0 <= staff <= 0x4000_0000,
                    0 <= md <= 0xFFFF_FFFF_FFFF_FFFF,
            ;
            assert((cnt - (idx + 1)) * strip <= 128 * 0x4000_0000 && 0 <= (cnt - (idx + 1))
                * strip && staff * c1 <= 0x4000_0000 * 128 && 0 <= staff * c1) by (nonlinear_arith)
                requires
                    0 <= idx < cnt <= 128,
                    0 <= strip <= 0x4000_0000,
                    0 <= staff <= 0x4000_0000,
                    0 <= c1 <= 128,
            ;
        }
        let cx_num: i128 = (dt as i128) * (mpd as i128) + (staff as i128) * (md as i128);
        let cy_num: i128 = ((cnt as i128) - (idx as i128 + 1)) * (strip as i128) + (staff as i128)
            * (c1 as i128);
        let circle = crate::svg_writer::circle::Circle::new_builder()
            .set_centre(Frac { num: cx_num, den: md }, Frac { num: cy_num, den: c1 })
            .set_radius(Frac { num: settings.hole_radius_um as i128, den: 1 })
            .set_fill(settings.hole_colour.clone())
            .finish();
        document.append(Element::Circle(circle));
        j += 1;
    }
    let ghost base2 = base1 + holes_g;
    proof {
        assert(document@ =~= base2);
    }

    // Sprocket holes, when enabled: the pattern continues at the carried
    // phase, and the first hole is always placed.
    let mut new_ovf_num: i128;
    proof {
        assert((settings.paper_size_x_um as int) * md <= 0x4000_0000 * 0xFFFF_FFFF_FFFF_FFFF && 0
            <= (settings.paper_size_x_um as int) * md) by (nonlinear_arith)
            requires
                0 <= settings.paper_size_x_um as int <= 0x4000_0000,
                0 <= md <= 0xFFFF_FFFF_FFFF_FFFF,
        ;
    }
    let ghost bound = sprocket_overflow_bound(*music_box, *settings, md_g);
    proof {
        assert(0 <= bound <= 0x2_0000_0000_0000_0000_0000_0000) by (nonlinear_arith)
            requires
                bound == (settings.paper_size_x_um + 2 * settings.staff_offset_um) * md_g
                    + MAX_TICKS * music_box.min_note_distance_um
                    + settings.sprocket_hole_distance_um * md_g,
                0 <= settings.paper_size_x_um <= 0x4000_0000,
                0 <= settings.staff_offset_um <= 0x4000_0000,
                0 <= settings.sprocket_hole_distance_um <= 0x4000_0000,
                0 <= music_box.min_note_distance_um <= 0x4000_0000,
                1 <= md_g <= 0xFFFF_FFFF_FFFF_FFFF,
        ;
        assert(0 <= w * mpd <= MAX_TICKS * 0x4000_0000) by (nonlinear_arith)
            requires
                0 <= w <= MAX_TICKS,
                0 <= mpd <= 0x4000_0000,
        ;
    }
    if settings.sprocket_hole_enable {
        let sp: u64 = settings.sprocket_hole_distance_um;
        proof {
            assert(sp * md >= 1 && sp * md <= 0x4000_0000 * 0xFFFF_FFFF_FFFF_FFFF)
                by (nonlinear_arith)
                requires
                    1 <= sp <= 0x4000_0000,
                    1 <= md <= 0xFFFF_FFFF_FFFF_FFFF,
            ;
        }
        let spmd: i128 = (sp as i128) * (md as i128);
        let area_num: i128 = (w as i128) * (mpd as i128) - overflow_sprockets.num;
        let k: i128;
        if area_num < 0 {
            k = 0;
        } else {
            let ku: u128 = (area_num as u128) / (spmd as u128);
            k = ku as i128;
            proof {
                assert(k == area_num as int / (spmd as int));
            }
        }
        proof {
            assert(k == sprocket_count(w_g, ovfs_g, *music_box, *settings, md_g));
            if area_num >= 0 {
                vstd::arithmetic::div_mod::lemma_fundamental_div_mod(area_num as int, spmd as int);
                vstd::arithmetic::div_mod::lemma_mod_bound(area_num as int, spmd as int);
                assert(k * spmd == area_num - area_num % spmd) by (nonlinear_arith)
                    requires
                        area_num == spmd * k + area_num % spmd,
                ;
            } else {
                assert(k * spmd == 0) by (nonlinear_arith)
                    requires
                        k == 0,
                ;
            }
            assert(0 <= k * spmd && (area_num >= 0 ==> k * spmd <= area_num));
            assert(k * spmd <= 0x8_0000_0000_0000_0000_0000_0000);
            assert(k <= k * spmd) by (nonlinear_arith)
                requires
                    0 <= k,
                    1 <= spmd,
            ;
        }
        let top_y = Frac { num: staff as i128 - settings.sprocket_hole_distance_staff_um as i128, den: 1 };
        let bot_y = Frac {
            num: staff as i128 + strip as i128 + settings.sprocket_hole_distance_staff_um as i128,
            den: 1,
        };
        let start_x_num: i128 = (staff as i128) * (md as i128) + overflow_sprockets.num;
        let mut t: i128 = 0;
        let mut cur_x_num: i128 = start_x_num;
        while t <= k
            invariant
                0 <= t <= k + 1,
                spmd == sp as int * md as int,
                1 <= spmd,
                spmd <= 0x4000_0000 * 0xFFFF_FFFF_FFFF_FFFF,
                0 <= k <= 0x8_0000_0000_0000_0000_0000_0000,
                sp == settings.sprocket_hole_distance_um,
                settings.sprocket_hole_enable,
                strip == music_box.strip_height_um,
                staff == settings.staff_offset_um,
                md == scale.x.den,
                md_g == md as int,
                ovfs_g == overflow_sprockets.num as int,
                start_x_num == staff * md + ovfs_g,
                cur_x_num == start_x_num + t * spmd,
                0 <= k * spmd,
                k * spmd <= 0x8_0000_0000_0000_0000_0000_0000,
                -0x8_0000_0000_0000_0000_0000_0000 <= start_x_num
                    <= 0x8_0000_0000_0000_0000_0000_0000,
                k == sprocket_count(w_g, ovfs_g, *music_box, *settings, md_g),
                top_y.num == staff - settings.sprocket_hole_distance_staff_um,
                top_y.den == 1,
                bot_y.num == staff + strip + settings.sprocket_hole_distance_staff_um,
                bot_y.den == 1,
                settings.hole_radius_um <= 0x4000_0000,
                spr_g == sprockets_geometry(w_g, ovfs_g, *music_box, *settings, md_g),
                document@.len() == base2.len() + 2 * t,
                forall|q: int| 0 <= q < base2.len() ==> document@[q] == base2[q],
                forall|q: int| 0 <= q < 2 * t ==> document@[base2.len() + q] == spr_g[q],
            decreases k + 1 - t,
        {
            proof {
                vstd::arithmetic::mul::lemma_mul_inequality(t as int, k as int, spmd as int);
                vstd::arithmetic::mul::lemma_mul_nonnegative(t as int, spmd as int);
                vstd::arithmetic::mul::lemma_mul_nonnegative(t as int + 1, spmd as int);
                vstd::arithmetic::mul::lemma_mul_inequality(t as int + 1, k as int + 1, spmd as int);
                assert((t + 1) * spmd == t * spmd + spmd) by (nonlinear_arith);
                assert((k + 1) * spmd == k * spmd + spmd) by (nonlinear_arith);
                assert((2 * t) / 2 == t && (2 * t) % 2 == 0 && (2 * t + 1) / 2 == t && (2 * t + 1)
                    % 2 == 1) by (nonlinear_arith);
            }
            let hole_top = crate::svg_writer::circle::Circle::new_builder()
                .set_centre(Frac { num: cur_x_num, den: md }, top_y)
                .set_radius(Frac { num: settings.hole_radius_um as i128, den: 1 })
                .set_fill(settings.hole_colour.clone())
                .finish();
            document.append(Element::Circle(hole_top));
            let hole_bot = crate::svg_writer::circle::Circle::new_builder()
                .set_centre(Frac { num: cur_x_num, den: md }, bot_y)
                .set_radius(Frac { num: settings.hole_radius_um as i128, den: 1 })
                .set_fill(settings.hole_colour.clone())
                .finish();
            document.append(Element::Circle(hole_bot));
            proof {
                assert(spr_g.len() == 2 * (k + 1));
                assert(document@[base2.len() + 2 * t] == spr_g[2 * t]);
                assert(document@[base2.len() + 2 * t + 1] == spr_g[2 * t + 1]);
            }
            cur_x_num = cur_x_num + spmd;
            t = t + 1;
        }
        proof {
            assert(-0x4000_0000_0000_0000_0000_0000 <= (settings.paper_size_x_um as int - staff)
                * md_g <= 0x4000_0000_0000_0000_0000_0000 && (settings.paper_size_x_um as int
                - staff) * md_g == settings.paper_size_x_um * md_g - staff * md_g)
                by (nonlinear_arith)
                requires
                    0 <= settings.paper_size_x_um <= 0x4000_0000,
                    0 <= staff <= 0x4000_0000,
                    1 <= md_g <= 0xFFFF_FFFF_FFFF_FFFF,
            ;
        }
        new_ovf_num = (settings.paper_size_x_um as i128 - staff as i128) * (md as i128) - (
        start_x_num + k * spmd);
    } else {
        proof {
            assert(-0x4000_0000_0000_0000_0000_0000 <= (settings.paper_size_x_um as int - staff)
                * md_g <= 0x4000_0000_0000_0000_0000_0000 && (settings.paper_size_x_um as int
                - staff) * md_g == settings.paper_size_x_um * md_g - staff * md_g)
                by (nonlinear_arith)
                requires
                    0 <= settings.paper_size_x_um <= 0x4000_0000,
                    0 <= staff <= 0x4000_0000,
                    1 <= md_g <= 0xFFFF_FFFF_FFFF_FFFF,
            ;
        }
        new_ovf_num = (settings.paper_size_x_um as i128 - staff as i128) * (md as i128);
    }
    proof {
        assert(document@ =~= page_geometry(
            notes@,
            overflow_notes as int,
            ovfs_g,
            *music_box,
            *settings,
            md_g,
        ));
        lemma_next_sprocket_overflow_bound(w_g, ovfs_g, *music_box, *settings, md_g);
        assert(new_ovf_num == next_sprocket_overflow(w_g, ovfs_g, *music_box, *settings, md_g));
    }
    (document, Frac { num: new_ovf_num, den: md })
}

/// Runs the layout engine: rejects a track with fewer than two playable
/// events, computes the scale factors, splits the events into pages and
/// draws each page, threading the sprocket phase from one page into the
/// next. Returns one geometry document per page.
pub fn generate_svgs(track: &Track, music_box: &MusicBox, settings: &Settings) -> (r: Result<
    Vec<Document>,
    ConvertError,
>)
    requires
        track.wf(),
        music_box.wf(),
        settings.wf(),
        track.all_playable(music_box.notes@),
    ensures
        r is Ok <==> track.inner@.len() >= 2 && music_box.notes@.len() >= 2 && track.min_distance
            >= 1,
        track.inner@.len() < 2 ==> r == Err::<Vec<Document>, ConvertError>(
            ConvertError::InsufficientPlayableNotes { count: track.inner@.len() as usize },
        ),
        track.inner@.len() >= 2 && !(music_box.notes@.len() >= 2 && track.min_distance >= 1)
            ==> r == Err::<Vec<Document>, ConvertError>(ConvertError::DegenerateScaleFactor),
        r matches Ok(docs) ==> ({
            let md = track.min_distance as int;
            let mpd = music_box.min_note_distance_um as int;
            let staff = settings.staff_offset_um as int;
            let paper = settings.paper_size_x_um as int;
            let pages = spec_paginate(track.inner@, mpd, md, staff, paper);
            &&& docs@.len() == pages.len()
            &&& forall|k: int|
                0 <= k < pages.len() ==> (#[trigger] docs@[k])@ == page_geometry(
                    pages[k].events,
                    pages[k].overflow_ticks,
                    sprocket_carry(pages, k, *music_box, *settings, md),
                    *music_box,
                    *settings,
                    md,
                )
        }),
{
    let n = track.inner.len();
    if n < 2 {
        return Err(ConvertError::InsufficientPlayableNotes { count: n });
    }
    let scale = match set_scale_factor(music_box, track) {
        Ok(s) => s,
        Err(_) => {
            return Err(ConvertError::DegenerateScaleFactor);
        },
    };
    let ghost mpd = music_box.min_note_distance_um as int;
    let ghost md_g = track.min_distance as int;
    let ghost staff = settings.staff_offset_um as int;
    let ghost paper = settings.paper_size_x_um as int;
    let ghost pmodels = spec_paginate(track.inner@, mpd, md_g, staff, paper);
    let ghost pfun: spec_fn(Event) -> bool = |e: Event|
        e.abs <= MAX_TICKS && music_box.notes@.contains(e.note);
    let pages = paginate(track, &scale, settings);
    let ghost bound = sprocket_overflow_bound(*music_box, *settings, md_g);
    proof {
        lemma_pagination_continuity(track.inner@, mpd, md_g, staff, paper);
        assert(0 <= bound) by (nonlinear_arith)
            requires
                bound == (settings.paper_size_x_um + 2 * settings.staff_offset_um) * md_g
                    + MAX_TICKS * music_box.min_note_distance_um
                    + settings.sprocket_hole_distance_um * md_g,
                0 <= settings.paper_size_x_um,
                0 <= settings.staff_offset_um,
                0 <= settings.sprocket_hole_distance_um,
                0 <= music_box.min_note_distance_um,
                1 <= md_g,
        ;
    }

    let mut docs: Vec<Document> = Vec::new();
    let mut ovfs = Frac { num: 0, den: scale.x.den };
    let page_total = pages.len();
    let mut k: usize = 0;
    while k < page_total
        invariant
            k <= page_total,
            track.wf(),
            music_box.wf(),
            settings.wf(),
            track.all_playable(music_box.notes@),
            track.inner@.len() >= 2,
            music_box.notes@.len() >= 2,
            track.min_distance >= 1,
            scale.x.num == music_box.min_note_distance_um as int,
            scale.x.den == track.min_distance,
            mpd == music_box.min_note_distance_um as int,
            md_g == track.min_distance as int,
            staff == settings.staff_offset_um as int,
            paper == settings.paper_size_x_um as int,
            pmodels == spec_paginate(track.inner@, mpd, md_g, staff, paper),
            pages_view(pages@) == pmodels,
            page_total == pages@.len(),
            bound == sprocket_overflow_bound(*music_box, *settings, md_g),
            pfun == (|e: Event| e.abs <= MAX_TICKS && music_box.notes@.contains(e.note)),
            docs@.len() == k,
            forall|q: int|
                0 <= q < k ==> (#[trigger] docs@[q])@ == page_geometry(
                    pmodels[q].events,
                    pmodels[q].overflow_ticks,
                    sprocket_carry(pmodels, q, *music_box, *settings, md_g),
                    *music_box,
                    *settings,
                    md_g,
                ),
            ovfs.num == sprocket_carry(pmodels, k as int, *music_box, *settings, md_g),
            ovfs.den == scale.x.den,
            -2 * bound <= ovfs.num <= bound,
        decreases page_total - k,
    {
        proof {
            lemma_pagination_continuity(track.inner@, mpd, md_g, staff, paper);
            assert forall|j: int| 0 <= j < track.inner@.len() implies pfun(
                #[trigger] track.inner@[j],
            ) by {
                assert(track.inner@[j].abs <= track.tick_length <= MAX_TICKS);
            }
            lemma_pagination_pred(track.inner@, pfun, mpd, md_g, staff, paper);
            assert(pages_view(pages@)[k as int] == pages@[k as int]@);
            let pm = pmodels[k as int];
            assert(pm.events.len() >= 1);
            assert forall|a: int| 0 <= a < pm.events.len() implies (#[trigger] pm.events[a]).abs
                <= MAX_TICKS && music_box.notes@.contains(pm.events[a].note) by {
                assert(pfun(pm.events[a]));
            }
            if k > 0 {
                assert(pm.overflow_ticks == pm.events[0].abs - pmodels[k as int
                    - 1].events.last().abs);
                assert(pmodels[k as int - 1].events.len() >= 1);
                assert(pfun(pmodels[k as int - 1].events.last()));
            }
            assert(pm.events.last().abs - pm.events[0].abs + pm.overflow_ticks <= MAX_TICKS);
        }
        let page = &pages[k];
        let (doc, new_ovfs) = draw_page(
            &page.events,
            page.overflow_ticks,
            ovfs,
            music_box,
            settings,
            &scale,
        );
        docs.push(doc);
        proof {
            let pm = pmodels[k as int];
            assert(sprocket_carry(pmodels, k as int + 1, *music_box, *settings, md_g)
                == next_sprocket_overflow(
                pm.events.last().abs - pm.events[0].abs + pm.overflow_ticks,
                sprocket_carry(pmodels, k as int, *music_box, *settings, md_g),
                *music_box,
                *settings,
                md_g,
            ));
            assert(new_ovfs.num == sprocket_carry(
                pmodels,
                k as int + 1,
                *music_box,
                *settings,
                md_g,
            ));
        }
        ovfs = new_ovfs;
        k += 1;
    }
    Ok(docs)
}

/// Computes the two scale factors: horizontally, the minimum playable
/// distance over the track's minimum repeat distance, so the tightest
/// repeat in the music maps to exactly the tightest interval the
/// mechanism can play; vertically, the strip height split over the note
/// lines. Fails when the music box has fewer than two notes or the
/// track's minimum distance is zero.
pub fn set_scale_factor(music_box: &MusicBox, track: &Track) -> (r: Result<
    Vec2<Frac>,
    ConvertError,
>)
    ensures
        r is Ok <==> music_box.notes@.len() >= 2 && track.min_distance >= 1,
        r matches Ok(v) ==> {
            &&& v.x == (Frac {
                num: music_box.min_note_distance_um as i128,
                den: track.min_distance,
            })
            &&& v.y == (Frac {
                num: music_box.strip_height_um as i128,
                den: (music_box.notes@.len() - 1) as u64,
            })
        },
        r is Err ==> r == Err::<Vec2<Frac>, ConvertError>(ConvertError::DegenerateScaleFactor),
{
    if music_box.note_count() < 2 || track.min_distance() == 0 {
        return Err(ConvertError::DegenerateScaleFactor);
    }
    let x = Frac { num: music_box.min_note_distance_um as i128, den: track.min_distance() };
    let y = music_box.vertical_note_distance();
    Ok(Vec2 { x, y })
}

} // verus!
