//! What a session window says about itself, and what it presents.

use vstd::prelude::*;

use crate::app::screen;
use crate::app::session::App;
use crate::imageclip;
use crate::overlay;
use crate::overlay::{Measured, Status};
use crate::proto::Rect;
use crate::text;

verus! {

/// How much of the uploads is done, of how much.
pub open spec fn progress_sum(progress: Seq<(u64, u64)>) -> (nat, nat)
    decreases progress.len(),
{
    if progress.len() == 0 {
        (0, 0)
    } else {
        let (done, total) = progress_sum(progress.drop_last());
        (done + progress.last().0 as nat, total + progress.last().1 as nat)
    }
}

/// The percentage that is done; nothing of nothing is none.
pub open spec fn percent(progress: Seq<(u64, u64)>) -> nat {
    let (done, total) = progress_sum(progress);
    if total == 0 {
        0
    } else {
        done * 100 / total
    }
}

/// The sums fit what they are counted with.
pub open spec fn countable(progress: Seq<(u64, u64)>) -> bool {
    progress_sum(progress).0 * 100 <= u64::MAX && progress_sum(progress).1 <= u64::MAX
}

proof fn lemma_sum_grows(progress: Seq<(u64, u64)>, i: int)
    requires
        0 <= i <= progress.len(),
    ensures
        progress_sum(progress.take(i)).0 <= progress_sum(progress).0,
        progress_sum(progress.take(i)).1 <= progress_sum(progress).1,
    decreases progress.len(),
{
    if i < progress.len() {
        lemma_sum_grows(progress.drop_last(), i);
        assert(progress.drop_last().take(i) =~= progress.take(i));
    } else {
        assert(progress.take(i) =~= progress);
    }
}

/// The percentage of the uploads that is done.
fn percent_of(progress: &Vec<(u64, u64)>) -> (p: u64)
    requires
        countable(progress@),
    ensures
        p == percent(progress@),
{
    let mut done: u64 = 0;
    let mut total: u64 = 0;
    let mut i: usize = 0;
    while i < progress.len()
        invariant
            i <= progress.len(),
            countable(progress@),
            (done as nat, total as nat) == progress_sum(progress@.take(i as int)),
        decreases progress.len() - i,
    {
        proof {
            lemma_sum_grows(progress@, i + 1);
            assert(progress@.take(i + 1).drop_last() =~= progress@.take(i as int));
        }
        done = done + progress[i].0;
        total = total + progress[i].1;
        i = i + 1;
    }
    assert(progress@.take(i as int) =~= progress@);
    if total == 0 {
        0
    } else {
        done * 100 / total
    }
}

/// `user@server`.
pub open spec fn who(user: Seq<char>, server: Seq<char>) -> Seq<char> {
    user + "@"@ + server
}

impl App {
    /// The title of the window. `rtt` is the round trip in whole milliseconds,
    /// where there is one, and `progress` how far each upload is.
    pub open spec fn title_text(self, rtt: Option<u64>, progress: Seq<(u64, u64)>) -> Seq<char> {
        let head = self.opts.title@ + " - "@ + who(
            self.client.info.username@,
            self.client.info.server_name@,
        ) + " "@ + imageclip::size_text(
            self.client.width as nat,
            self.client.height as nat,
        );
        let timed = match rtt {
            Some(ms) => head + " - "@ + text::decimal(ms as nat) + " ms"@,
            None => head,
        };
        if self.uploads@.len() == 0 {
            timed
        } else {
            timed + " - uploading "@ + text::decimal(self.uploads@.len()) + " file(s) "@
                + text::decimal(percent(progress)) + "%"@
        }
    }

    fn who_text(&self) -> (s: String)
        ensures
            s@ == who(self.client.info.username@, self.client.info.server_name@),
    {
        let mut s = text::copy(self.client.info.username.as_str());
        s.push_str("@");
        s.push_str(self.client.info.server_name.as_str());
        s
    }

    /// The title of the window.
    pub fn title(&self, rtt: Option<u64>, progress: &Vec<(u64, u64)>) -> (t: String)
        requires
            countable(progress@),
        ensures
            t@ == self.title_text(rtt, progress@),
    {
        let mut t = text::copy(self.opts.title.as_str());
        t.push_str(" - ");
        let name = self.who_text();
        t.push_str(name.as_str());
        t.push_str(" ");
        let w = text::decimal_of(self.client.width as u64);
        t.push_str(w.as_str());
        t.push_str("x");
        let h = text::decimal_of(self.client.height as u64);
        t.push_str(h.as_str());
        let ghost head = self.opts.title@ + " - "@ + who(
            self.client.info.username@,
            self.client.info.server_name@,
        ) + " "@ + imageclip::size_text(
            self.client.width as nat,
            self.client.height as nat,
        );
        assert(t@ =~= head);
        match rtt {
            Some(ms) => {
                t.push_str(" - ");
                let d = text::decimal_of(ms);
                t.push_str(d.as_str());
                t.push_str(" ms");
            },
            None => {},
        }
        if self.uploads.len() > 0 {
            t.push_str(" - uploading ");
            let n = text::decimal_of(self.uploads.len() as u64);
            t.push_str(n.as_str());
            t.push_str(" file(s) ");
            let p = text::decimal_of(percent_of(progress));
            t.push_str(p.as_str());
            t.push_str("%");
        }
        t
    }

    /// Everything the bar is allowed to say, and nothing else: the handshake
    /// identity, the remote size, the last real round-trip sample and real
    /// upload progress. No rate is offered because the bytes received are a
    /// cumulative counter, and a counter is not a rate.
    pub fn overlay_status(&self, now: u64, rtt: Option<u64>, progress: &Vec<(u64, u64)>) -> (st:
        Status)
        requires
            countable(progress@),
        ensures
            st.who@ == who(self.client.info.username@, self.client.info.server_name@),
            st.width == self.client.width,
            st.height == self.client.height,
            st.rtt == rtt,
            st.stalled == self.stall(now),
            st.uploads == if self.uploads@.len() == 0 {
                None
            } else {
                Some((self.uploads@.len() as usize, percent(progress@) as u64))
            },
    {
        let name = self.who_text();
        let mut st = Status::new(name.as_str(), self.client.size(), rtt);
        st.stalled = self.stalled_for(now);
        if self.uploads.len() > 0 {
            st.uploads = Some((self.uploads.len(), percent_of(progress)));
        }
        st
    }
}

// ---------------------------------------------------------------------------
// Repainting
// ---------------------------------------------------------------------------

/// A repaint: where the bar and the cursor are drawn, and what is presented.
#[derive(Debug, PartialEq, Eq)]
pub struct Painting {
    pub bar: Option<Rect>,
    pub cursor: Option<Rect>,
    pub damage: Vec<Rect>,
}

/// A rectangle, or an empty one for none.
pub open spec fn or_empty(r: Option<Rect>) -> Rect {
    match r {
        Some(r) => r,
        None => Rect { x: 0, y: 0, width: 0, height: 0 },
    }
}

fn rect_or_empty(r: Option<Rect>) -> (out: Rect)
    ensures
        out == or_empty(r),
{
    match r {
        Some(r) => r,
        None => Rect::new(0, 0, 0, 0),
    }
}

impl App {
    /// Where the cursor is drawn. While the pointer is on the bar it is the
    /// window system's cursor the user is steering, not the session's, so ours
    /// is neither drawn nor moved.
    pub open spec fn cursor_area(self) -> Option<Rect> {
        if self.client.info.features.local_cursor && !self.pointer_on_bar {
            match (self.cursor, self.pointer) {
                (Some(cur), Some((px, py))) => Some(
                    screen::pointer_area(cur, px as int, py as int),
                ),
                _ => None,
            }
        } else {
            None
        }
    }

    fn cursor_now(&self) -> (r: Option<Rect>)
        ensures
            r == self.cursor_area(),
    {
        if self.client.info.features.local_cursor && !self.pointer_on_bar {
            match (&self.cursor, self.pointer) {
                (Some(cur), Some((px, py))) => Some(screen::cursor_bounds(cur, px, py)),
                _ => None,
            }
        } else {
            None
        }
    }

    /// Plan a repaint of a window of that size, and lay the bar out for it.
    ///
    /// What the bar covered last frame but does not now is presented too: the
    /// blit restores those pixels, but nothing else would present them.
    pub fn plan(&mut self, width: u32, height: u32, s: u32, status: &Status, m: &Measured) -> (r:
        Option<Painting>)
        requires
            s <= overlay::MAX_SCALE,
            m.fits(*status),
        ensures
            if old(self).has_window && width > 0 && height > 0 {
                &&& r matches Some(p) && p.bar == old(self).overlay.area(width, height, s)
                    && p.cursor == old(self).cursor_area() && p.damage@ == screen::presented(
                    Rect { x: 0, y: 0, width, height },
                    old(self).full_redraw,
                    seq![
                        or_empty(old(self).dirty),
                        or_empty(old(self).last_cursor),
                        or_empty(old(self).cursor_area()),
                        or_empty(old(self).overlay.area(width, height, s)),
                        or_empty(old(self).overlay.painted),
                    ],
                )
                &&& *final(self) == (App { overlay: final(self).overlay, ..*old(self) })
                &&& old(self).overlay.drawn(final(self).overlay, width, height, s, *status, *m)
            } else {
                r is None && *final(self) == *old(self)
            },
    {
        if !self.has_window || width == 0 || height == 0 {
            return None;
        }
        let cursor = self.cursor_now();
        let (bar, was) = self.overlay.draw(width, height, s, status, m);
        let mut parts: Vec<Rect> = Vec::new();
        parts.push(rect_or_empty(self.dirty));
        parts.push(rect_or_empty(self.last_cursor));
        parts.push(rect_or_empty(cursor));
        parts.push(rect_or_empty(bar));
        parts.push(rect_or_empty(was));
        assert(parts@ =~= seq![
            or_empty(old(self).dirty),
            or_empty(old(self).last_cursor),
            or_empty(old(self).cursor_area()),
            or_empty(old(self).overlay.area(width, height, s)),
            or_empty(old(self).overlay.painted),
        ]);
        let damage = screen::damage_regions(
            Rect::new(0, 0, width, height),
            self.full_redraw,
            parts.as_slice(),
        );
        Some(Painting { bar, cursor, damage })
    }

    /// The repaint is on screen.
    pub fn presented(&mut self, cursor: Option<Rect>)
        ensures
            *final(self) == (App {
                last_cursor: cursor,
                dirty: None,
                full_redraw: false,
                ..*old(self)
            }),
    {
        self.last_cursor = cursor;
        self.dirty = None;
        self.full_redraw = false;
    }
}

// ---------------------------------------------------------------------------
// Files from the session
// ---------------------------------------------------------------------------

/// What parts the components of a path, on any system.
pub open spec fn separator(c: char) -> bool {
    c == '/' || c == '\\'
}

/// The last component of a path.
pub open spec fn last_component(path: Seq<char>) -> Seq<char>
    decreases path.len(),
{
    if path.len() == 0 || separator(path.last()) {
        Seq::empty()
    } else {
        last_component(path.drop_last()).push(path.last())
    }
}

/// The name a file of the session is fetched under: the last component of its
/// path, whatever system the session runs on.
pub fn remote_name(path: &str) -> (name: String)
    ensures
        name@ == last_component(path@),
{
    let v = text::chars_of(path);
    let mut from: usize = v.len();
    assert(v@.skip(v@.len() as int) =~= Seq::<char>::empty());
    assert(v@.take(v@.len() as int) =~= v@);
    assert(last_component(v@) + v@.skip(v@.len() as int) =~= last_component(v@));
    while from > 0 && !(v[from - 1] == '/' || v[from - 1] == '\\')
        invariant
            from <= v.len(),
            last_component(v@.take(from as int)) + v@.skip(from as int) == last_component(v@),
        decreases from,
    {
        let ghost head = v@.take(from as int);
        assert(head.drop_last() =~= v@.take(from - 1));
        assert(head.last() == v@[from - 1]);
        assert(v@.skip(from - 1) =~= seq![v@[from - 1]] + v@.skip(from as int));
        assert(last_component(head) + v@.skip(from as int) =~= last_component(v@.take(from - 1))
            + v@.skip(from - 1));
        from = from - 1;
    }
    assert(last_component(v@.take(from as int)) =~= Seq::<char>::empty());
    let rest = text::slice_of(&v, from, v.len());
    assert(rest@ =~= last_component(v@));
    text::string_of(&rest)
}

// ---------------------------------------------------------------------------
// Laws of what is said and repainted
// ---------------------------------------------------------------------------

/// The sums of a list of transfers are those of all of them, and the percentage
/// is what is done of every hundred parts of the whole, rounded down, and none
/// where there is nothing to do.
pub proof fn law_percentage_is_of_the_whole(progress: Seq<(u64, u64)>, one: (u64, u64))
    ensures
        progress_sum(Seq::empty()) == (0nat, 0nat),
        progress_sum(progress.push(one)) == (
            progress_sum(progress).0 + one.0 as nat,
            progress_sum(progress).1 + one.1 as nat,
        ),
        ({
            let (done, total) = progress_sum(progress);
            &&& total == 0 ==> percent(progress) == 0
            &&& total > 0 ==> percent(progress) * total <= done * 100 && done * 100 < (percent(
                progress,
            ) + 1) * total
        }),
{
    assert(progress.push(one).drop_last() =~= progress);
    let (done, total) = progress_sum(progress);
    if total > 0 {
        let d = (done * 100) as int;
        let q = d / total as int;
        vstd::arithmetic::div_mod::lemma_fundamental_div_mod(d, total as int);
        vstd::arithmetic::div_mod::lemma_mod_bound(d, total as int);
        assert(q * total <= d && d < (q + 1) * total) by (nonlinear_arith)
            requires
                d == total * q + d % (total as int),
                0 <= d % (total as int) < total,
        ;
    }
}

/// The title says the program, the user at the server and the size of the
/// screen, then the round trip where it is known, and the uploads where there
/// are any.
pub proof fn law_title_says_where_and_how(
    app: App,
    ms: u64,
    progress: Seq<(u64, u64)>,
)
    ensures
        ({
            let head = app.opts.title@ + " - "@ + (app.client.info.username@ + "@"@
                + app.client.info.server_name@) + " "@ + (text::decimal(app.client.width as nat)
                + "x"@ + text::decimal(app.client.height as nat));
            let timed = head + " - "@ + text::decimal(ms as nat) + " ms"@;
            let sent = " - uploading "@;
            &&& app.uploads@.len() == 0 ==> app.title_text(None, progress) == head
            &&& app.uploads@.len() == 0 ==> app.title_text(Some(ms), progress) == timed
            &&& app.uploads@.len() > 0 ==> app.title_text(None, progress) == head + sent
                + text::decimal(app.uploads@.len()) + " file(s) "@ + text::decimal(percent(progress))
                + "%"@
            &&& app.uploads@.len() > 0 ==> app.title_text(Some(ms), progress) == timed + sent
                + text::decimal(app.uploads@.len()) + " file(s) "@ + text::decimal(percent(progress))
                + "%"@
        }),
{
}

/// The pointer is drawn where it is, in its own shape, while the session leaves
/// that to the client and the pointer is not on the bar; and nothing is where
/// there is no rectangle.
pub proof fn law_pointer_is_drawn_off_the_bar(
    app: App,
    cur: crate::proto::CursorImage,
    px: u32,
    py: u32,
    r: Rect,
)
    ensures
        app.client.info.features.local_cursor && !app.pointer_on_bar && app.cursor == Some(cur)
            && app.pointer == Some((px, py)) ==> app.cursor_area() == Some(
            screen::pointer_area(cur, px as int, py as int),
        ),
        !app.client.info.features.local_cursor || app.pointer_on_bar || app.cursor is None
            || app.pointer is None ==> app.cursor_area() is None,
        or_empty(Some(r)) == r,
        or_empty(None).width == 0,
{
}

/// The name of a file is what stands behind the last slash of its path, whichever
/// way it leans, and the whole path where there is none.
pub proof fn law_name_stands_behind_the_last_slash(
    dir: Seq<char>,
    slash: char,
    name: Seq<char>,
)
    requires
        slash == '/' || slash == '\\',
        forall|i: int| 0 <= i < name.len() ==> name[i] != '/' && name[i] != '\\',
    ensures
        last_component(name) == name,
        last_component(dir.push(slash) + name) == name,
    decreases name.len(),
{
    if name.len() == 0 {
        assert(dir.push(slash) + name =~= dir.push(slash));
        assert(name =~= Seq::empty());
    } else {
        let head = name.drop_last();
        law_name_stands_behind_the_last_slash(dir, slash, head);
        assert((dir.push(slash) + name).drop_last() =~= dir.push(slash) + head);
        assert((dir.push(slash) + name).last() == name.last());
        assert(head.push(name.last()) =~= name);
        assert(name[name.len() - 1] == name.last());
    }
}

} // verus!
