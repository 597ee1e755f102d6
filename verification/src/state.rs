//! Application state and its controllers: the merge of background
//! updates, and the list/selection/filter navigation.

use vstd::prelude::*;
use crate::logos::{LogoImage, LogoStore};
use crate::model::{Event, is_live};

verus! {

/// A payload from the background poller: a full snapshot replacement, or
/// one newly decoded team logo.
pub enum Update {
    Snapshot(Vec<Event>),
    Logo(String, LogoImage),
}

/// A discrete keyboard command: a character, or one of the two arrows
/// the viewer reacts to.
#[derive(Debug, Clone, Copy, PartialEq, Eq, Structural)]
pub enum Key {
    Char(char),
    Up,
    Down,
}

/// The live application state: the event list, the selection index into
/// the filtered view, the two user flags, and the logo cache.
pub struct App {
    pub should_quit: bool,
    pub events: Vec<Event>,
    pub selected: Option<usize>,
    pub filter_live: bool,
    pub logos: LogoStore,
    pub show_logos: bool,
}

/// The ordered view the list controller navigates: every event when the
/// live filter is off, only the live ones when it is on.
pub open spec fn filtered_spec(events: Seq<Event>, live_only: bool) -> Seq<Event> {
    if live_only {
        events.filter(|e: Event| is_live(e))
    } else {
        events
    }
}

/// A vector of borrowed events, read back as the events themselves.
pub open spec fn deref_events(s: Seq<&Event>) -> Seq<Event> {
    s.map_values(|e: &Event| *e)
}

/// Selection one step forward on a ring of `n` elements: past the last
/// element wraps to 0.
pub open spec fn next_index(i: int, n: int) -> int {
    if i >= n - 1 {
        0
    } else {
        i + 1
    }
}

/// Selection one step back: before 0 wraps to the last element.
pub open spec fn prev_index(i: int, n: int) -> int {
    if i == 0 {
        n - 1
    } else {
        i - 1
    }
}

/// `k` forward steps from `i` on a ring of `n` elements.
pub open spec fn next_index_iter(i: int, n: int, k: nat) -> int
    decreases k,
{
    if k == 0 {
        i
    } else {
        next_index(next_index_iter(i, n, (k - 1) as nat), n)
    }
}

/// Law: on a non-empty view, one step forward followed by one step back
/// is the identity on a valid selection index.
pub proof fn lemma_next_prev_identity(i: int, n: int)
    requires
        n > 0,
        0 <= i < n,
    ensures
        prev_index(next_index(i, n), n) == i,
{
}

proof fn lemma_next_index_iter_val(i: int, n: int, k: nat)
    requires
        n > 0,
        0 <= i < n,
        k <= n,
    ensures
        next_index_iter(i, n, k) == if i + k < n {
            i + k
        } else {
            i + k - n
        },
    decreases k,
{
    if k > 0 {
        lemma_next_index_iter_val(i, n, (k - 1) as nat);
    }
}

/// Law: as many forward steps as the ring has elements return a valid
/// selection index to its starting value.
pub proof fn lemma_ring_closure(i: int, n: int)
    requires
        n > 0,
        0 <= i < n,
    ensures
        next_index_iter(i, n, n as nat) == i,
{
    lemma_next_index_iter_val(i, n, n as nat);
}

/// `post` is reachable from `pre` by exactly `k` applications of `next`.
pub open spec fn nav_next_k(pre: App, post: App, k: nat) -> bool
    decreases k,
{
    if k == 0 {
        post == pre
    } else {
        exists|mid: App| nav_next_k(pre, mid, (k - 1) as nat) && nav_next(mid, post)
    }
}

proof fn lemma_nav_next_k_tracks_iter(a: App, b: App, i: usize, k: nat)
    requires
        nav_next_k(a, b, k),
        a.selected == Some(i),
        (i as int) < filtered_spec(a.events@, a.filter_live).len(),
        k <= filtered_spec(a.events@, a.filter_live).len(),
    ensures
        b.should_quit == a.should_quit,
        b.events == a.events,
        b.filter_live == a.filter_live,
        b.logos == a.logos,
        b.show_logos == a.show_logos,
        b.selected == Some(
            next_index_iter(
                i as int,
                filtered_spec(a.events@, a.filter_live).len() as int,
                k,
            ) as usize,
        ),
    decreases k,
{
    broadcast use vstd::std_specs::vec::axiom_spec_len;

    if a.filter_live {
        a.events@.lemma_filter_len(|e: Event| is_live(e));
    }
    assert(a.events.len() == a.events@.len());
    let n = filtered_spec(a.events@, a.filter_live).len() as int;
    if k == 0 {
        assert(next_index_iter(i as int, n, 0) == i as int);
    } else {
        let mid = choose|mid: App| nav_next_k(a, mid, (k - 1) as nat) && nav_next(mid, b);
        lemma_nav_next_k_tracks_iter(a, mid, i, (k - 1) as nat);
        lemma_next_index_iter_val(i as int, n, (k - 1) as nat);
        lemma_next_index_iter_val(i as int, n, k);
        assert(filtered_spec(mid.events@, mid.filter_live) == filtered_spec(
            a.events@,
            a.filter_live,
        ));
    }
}

/// Law: from a valid selection, as many `next` steps as the filtered
/// view has elements return the whole state, selection included, to
/// where it began.
pub proof fn lemma_select_ring_closure(a: App, b: App, i: usize)
    requires
        nav_next_k(a, b, filtered_spec(a.events@, a.filter_live).len()),
        a.selected == Some(i),
        (i as int) < filtered_spec(a.events@, a.filter_live).len(),
    ensures
        b == a,
{
    let n = filtered_spec(a.events@, a.filter_live).len() as int;
    lemma_nav_next_k_tracks_iter(a, b, i, n as nat);
    lemma_ring_closure(i as int, n);
}

/// Law: on a non-empty filtered view with a valid selection, a `next`
/// step followed by a `previous` step leaves the whole selection where
/// it began.
pub proof fn lemma_select_round_trip(a: App, b: App, c: App, i: usize)
    requires
        nav_next(a, b),
        nav_prev(b, c),
        a.selected == Some(i),
        (i as int) < filtered_spec(a.events@, a.filter_live).len(),
    ensures
        c.selected == a.selected,
{
    broadcast use vstd::std_specs::vec::axiom_spec_len;

    if a.filter_live {
        a.events@.lemma_filter_len(|e: Event| is_live(e));
    }
    let n = filtered_spec(a.events@, a.filter_live).len() as int;
    assert(n <= a.events@.len());
    assert(a.events.len() == a.events@.len());
    assert(filtered_spec(b.events@, b.filter_live) == filtered_spec(a.events@, a.filter_live));
    lemma_next_prev_identity(i as int, n);
}

/// Pushing one element filters to the old result, plus the element when
/// it passes the predicate.
proof fn lemma_filter_push(s: Seq<Event>, pred: spec_fn(Event) -> bool, x: Event)
    ensures
        s.push(x).filter(pred) == if pred(x) {
            s.filter(pred).push(x)
        } else {
            s.filter(pred)
        },
{
    reveal(Seq::filter);
    assert(s.push(x).drop_last() =~= s);
    assert(s.push(x).last() == x);
}

/// How `next` changes the state: only the selection moves, one step
/// forward on the ring of the current filtered view; an empty view is a
/// no-op, and an unset selection lands on 0.
pub open spec fn nav_next(pre: App, post: App) -> bool {
    let n = filtered_spec(pre.events@, pre.filter_live).len() as int;
    &&& post.should_quit == pre.should_quit
    &&& post.events == pre.events
    &&& post.filter_live == pre.filter_live
    &&& post.logos == pre.logos
    &&& post.show_logos == pre.show_logos
    &&& if n == 0 {
        post.selected == pre.selected
    } else {
        match pre.selected {
            Some(i) => post.selected == Some(next_index(i as int, n) as usize),
            None => post.selected == Some(0usize),
        }
    }
}

/// How `previous` changes the state, symmetrically to `nav_next`.
pub open spec fn nav_prev(pre: App, post: App) -> bool {
    let n = filtered_spec(pre.events@, pre.filter_live).len() as int;
    &&& post.should_quit == pre.should_quit
    &&& post.events == pre.events
    &&& post.filter_live == pre.filter_live
    &&& post.logos == pre.logos
    &&& post.show_logos == pre.show_logos
    &&& if n == 0 {
        post.selected == pre.selected
    } else {
        match pre.selected {
            Some(i) => post.selected == Some(prev_index(i as int, n) as usize),
            None => post.selected == Some(0usize),
        }
    }
}

/// The filter flag flips and the selection unconditionally resets to 0;
/// nothing else moves.
pub open spec fn toggled_filter(pre: App, post: App) -> bool {
    &&& post.should_quit == pre.should_quit
    &&& post.events == pre.events
    &&& post.filter_live == !pre.filter_live
    &&& post.selected == Some(0usize)
    &&& post.logos == pre.logos
    &&& post.show_logos == pre.show_logos
}

/// The quit flag is set; nothing else moves.
pub open spec fn quit_set(pre: App, post: App) -> bool {
    &&& post.should_quit == true
    &&& post.events == pre.events
    &&& post.filter_live == pre.filter_live
    &&& post.selected == pre.selected
    &&& post.logos == pre.logos
    &&& post.show_logos == pre.show_logos
}

/// The logo-visibility flag flips; nothing else moves.
pub open spec fn logos_toggled(pre: App, post: App) -> bool {
    &&& post.should_quit == pre.should_quit
    &&& post.events == pre.events
    &&& post.filter_live == pre.filter_live
    &&& post.selected == pre.selected
    &&& post.logos == pre.logos
    &&& post.show_logos == !pre.show_logos
}

/// What each key of the render loop does to the state.
pub open spec fn key_effect(key: Key, pre: App, post: App) -> bool {
    match key {
        Key::Char(c) => if c == 'q' {
            quit_set(pre, post)
        } else if c == 'l' {
            logos_toggled(pre, post)
        } else if c == 'f' {
            toggled_filter(pre, post)
        } else if c == 'j' {
            nav_next(pre, post)
        } else if c == 'k' {
            nav_prev(pre, post)
        } else {
            post == pre
        },
        Key::Down => nav_next(pre, post),
        Key::Up => nav_prev(pre, post),
    }
}

/// What each character of the compact binding set does to the state.
pub open spec fn on_key_effect(c: char, pre: App, post: App) -> bool {
    if c == 'q' {
        quit_set(pre, post)
    } else if c == 'j' {
        nav_next(pre, post)
    } else if c == 'k' {
        nav_prev(pre, post)
    } else if c == 'l' {
        toggled_filter(pre, post)
    } else {
        post == pre
    }
}

impl Default for App {
    /// The state before the first snapshot: no events, nothing selected,
    /// filter off, logos shown.
    fn default() -> (a: App)
        ensures
            a.should_quit == false,
            a.events@ == Seq::<Event>::empty(),
            a.selected is None,
            a.filter_live == false,
            a.logos@ == Map::<Seq<char>, LogoImage>::empty(),
            a.show_logos == true,
    {
        App {
            should_quit: false,
            events: Vec::new(),
            selected: None,
            filter_live: false,
            logos: LogoStore::new(),
            show_logos: true,
        }
    }
}

impl App {
    /// A fresh state with the selection already on the first entry.
    pub fn new() -> (a: App)
        ensures
            a.should_quit == false,
            a.events@ == Seq::<Event>::empty(),
            a.selected == Some(0usize),
            a.filter_live == false,
            a.logos@ == Map::<Seq<char>, LogoImage>::empty(),
            a.show_logos == true,
    {
        let mut app = App::default();
        app.selected = Some(0);
        app
    }

    /// The ordered, optionally filtered view of the games.
    pub fn filtered_events<'a>(&'a self) -> (r: Vec<&'a Event>)
        ensures
            deref_events(r@) == filtered_spec(self.events@, self.filter_live),
    {
        let mut out: Vec<&Event> = Vec::new();
        if !self.filter_live {
            let mut i: usize = 0;
            while i < self.events.len()
                invariant
                    i <= self.events@.len(),
                    out@.len() == i as int,
                    forall|j: int| 0 <= j < i as int ==> *(#[trigger] out@[j])
                        == self.events@[j],
                decreases self.events@.len() - i,
            {
                out.push(&self.events[i]);
                i += 1;
            }
            proof {
                assert(deref_events(out@) =~= self.events@);
            }
            out
        } else {
            let live_code: String = "in".to_owned();
            let mut i: usize = 0;
            while i < self.events.len()
                invariant
                    i <= self.events@.len(),
                    live_code@ == "in"@,
                    deref_events(out@) == self.events@.take(i as int).filter(
                        |e: Event| is_live(e),
                    ),
                decreases self.events@.len() - i,
            {
                let e = &self.events[i];
                proof {
                    assert(self.events@.take(i as int + 1) =~= self.events@.take(i as int).push(
                        self.events@[i as int],
                    ));
                    lemma_filter_push(
                        self.events@.take(i as int),
                        |e: Event| is_live(e),
                        self.events@[i as int],
                    );
                }
                if e.status.type_field.state == live_code {
                    out.push(e);
                    proof {
                        assert(deref_events(out@) =~= self.events@.take(i as int).filter(
                            |e: Event| is_live(e),
                        ).push(self.events@[i as int]));
                    }
                }
                i += 1;
            }
            proof {
                assert(self.events@.take(self.events@.len() as int) =~= self.events@);
            }
            out
        }
    }

    /// Move the selection one entry down, wrapping past the end; a no-op
    /// on an empty view.
    pub fn next(&mut self)
        ensures
            nav_next(*old(self), *final(self)),
    {
        let n = self.filtered_events().len();
        if n == 0 {
            return;
        }
        let i: usize = match self.selected {
            Some(i) => if i >= n - 1 {
                0
            } else {
                i + 1
            },
            None => 0,
        };
        self.selected = Some(i);
    }

    /// Move the selection one entry up, wrapping before the start; a
    /// no-op on an empty view.
    pub fn previous(&mut self)
        ensures
            nav_prev(*old(self), *final(self)),
    {
        let n = self.filtered_events().len();
        if n == 0 {
            return;
        }
        let i: usize = match self.selected {
            Some(i) => if i == 0 {
                n - 1
            } else {
                i - 1
            },
            None => 0,
        };
        self.selected = Some(i);
    }

    /// Flip the live-only filter. Switching views invalidates the old
    /// index's meaning, so the selection always resets to 0.
    pub fn toggle_live_filter(&mut self)
        ensures
            toggled_filter(*old(self), *final(self)),
    {
        self.filter_live = !self.filter_live;
        self.selected = Some(0);
    }

    /// The compact character bindings: quit, move down, move up, toggle
    /// the live filter.
    pub fn on_key(&mut self, c: char)
        ensures
            on_key_effect(c, *old(self), *final(self)),
    {
        match c {
            'q' => {
                self.should_quit = true;
            },
            'j' => {
                self.next();
            },
            'k' => {
                self.previous();
            },
            'l' => {
                self.toggle_live_filter();
            },
            _ => {},
        }
    }

    /// The render loop's bindings: quit, toggle logos, toggle the live
    /// filter, and selection movement on arrows or vi keys.
    pub fn handle_key(&mut self, key: Key)
        ensures
            key_effect(key, *old(self), *final(self)),
    {
        match key {
            Key::Char(c) => {
                if c == 'q' {
                    self.should_quit = true;
                } else if c == 'l' {
                    self.show_logos = !self.show_logos;
                } else if c == 'f' {
                    self.toggle_live_filter();
                } else if c == 'j' {
                    self.next();
                } else if c == 'k' {
                    self.previous();
                }
            },
            Key::Down => {
                self.next();
            },
            Key::Up => {
                self.previous();
            },
        }
    }

    /// Merge one inbound update. An empty snapshot means "no data this
    /// cycle" and leaves the current events untouched; a non-empty one
    /// replaces them wholesale. A logo arrival inserts or overwrites one
    /// entry of the logo map. The selection is never touched here.
    pub fn apply_update(&mut self, update: Update)
        ensures
            final(self).should_quit == old(self).should_quit,
            final(self).selected == old(self).selected,
            final(self).filter_live == old(self).filter_live,
            final(self).show_logos == old(self).show_logos,
            (match update {
                Update::Snapshot(events) => {
                    &&& final(self).logos == old(self).logos
                    &&& if events@.len() == 0 {
                        final(self).events == old(self).events
                    } else {
                        final(self).events == events
                    }
                },
                Update::Logo(abbr, img) => {
                    &&& final(self).events == old(self).events
                    &&& final(self).logos@ == old(self).logos@.insert(abbr@, img)
                },
            }),
    {
        match update {
            Update::Snapshot(events) => {
                if events.len() > 0 {
                    self.events = events;
                }
            },
            Update::Logo(abbr, img) => {
                self.logos.insert(abbr, img);
            },
        }
    }
}

} // verus!
