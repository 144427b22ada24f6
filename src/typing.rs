//! Typing a text into the window that had focus when typing began.
//!
//! Before each character the caller reads the focused window again and reports
//! whether it is still the one typing began in; on the first report that it is
//! not, the session stops and nothing more is typed.
use vstd::prelude::*;
use crate::keys::{
    char_keys, held, key_down, key_up, lemma_no_key_held_after_char, lemma_no_key_held_after_release,
    lemma_not_held_concat, release_modifiers, released_modifiers, releases, send_char_as_virtual, tab_keys,
    KeyInput, VK_TAB,
};

verus! {

/// The events a session sends for `text`, given the focus reports `checks` and
/// the layout answers `scans`, one of each per character tried: the keys of
/// each character in turn, up to the first report that focus moved.
pub open spec fn run_keys(text: Seq<char>, checks: Seq<bool>, scans: Seq<i16>) -> Seq<KeyInput>
    decreases checks.len(),
{
    if text.len() == 0 || checks.len() == 0 || scans.len() == 0 || !checks[0] {
        Seq::empty()
    } else {
        char_keys(text[0], scans[0]) + run_keys(text.drop_first(), checks.drop_first(), scans.drop_first())
    }
}

/// The keys of every character of `text` in turn, `scans` holding the
/// layout's answer for each.
pub open spec fn text_keys(text: Seq<char>, scans: Seq<i16>) -> Seq<KeyInput>
    decreases text.len(),
{
    if text.len() == 0 || scans.len() == 0 {
        Seq::empty()
    } else {
        char_keys(text[0], scans[0]) + text_keys(text.drop_first(), scans.drop_first())
    }
}

/// The events that open a session: Shift, Alt, Control and Caps-Lock let go.
pub open spec fn opening_keys() -> Seq<KeyInput> {
    releases(released_modifiers())
}

/// A text being typed, one character per step.
pub struct TextTyping {
    text: Vec<char>,
    pos: usize,
    stopped: bool,
    checks: Ghost<Seq<bool>>,
    scans: Ghost<Seq<i16>>,
}

impl TextTyping {
    /// The whole text of the session.
    pub closed spec fn text(&self) -> Seq<char> {
        self.text@
    }

    /// How many characters have been typed.
    pub closed spec fn typed(&self) -> nat {
        self.pos as nat
    }

    /// Whether a focus report has stopped the session.
    pub closed spec fn stopped(&self) -> bool {
        self.stopped
    }

    /// The focus reports received so far, one per step.
    pub closed spec fn checks(&self) -> Seq<bool> {
        self.checks@
    }

    /// The layout answers received so far, one per step.
    pub closed spec fn scans(&self) -> Seq<i16> {
        self.scans@
    }

    pub open spec fn done(&self) -> bool {
        self.stopped() || self.typed() == self.text().len()
    }

    /// The events of the session so far: its opening, then what the steps returned.
    pub open spec fn sent(&self) -> Seq<KeyInput> {
        opening_keys() + run_keys(self.text(), self.checks(), self.scans())
    }

    pub closed spec fn wf(&self) -> bool {
        &&& self.pos <= self.text@.len()
        &&& self.checks@.len() == self.scans@.len()
        &&& forall|i: int| 0 <= i < self.pos ==> #[trigger] self.checks@[i]
        &&& if self.stopped {
            self.pos < self.text@.len() && self.checks@.len() == self.pos + 1 && !self.checks@[self.pos as int]
        } else {
            self.checks@.len() == self.pos
        }
    }

    /// The character the next step types, where the session is not done.
    pub fn pending(&self) -> (r: Option<char>)
        requires
            self.wf(),
        ensures
            self.done() ==> r is None,
            !self.done() ==> r == Some(self.text()[self.typed() as int]),
    {
        if self.stopped || self.pos >= self.text.len() {
            None
        } else {
            Some(self.text[self.pos])
        }
    }

    /// Whether the session has nothing left to do.
    pub fn is_done(&self) -> (r: bool)
        requires
            self.wf(),
        ensures
            r == self.done(),
    {
        self.stopped || self.pos >= self.text.len()
    }

    /// One step: `focus_kept` is the focus report taken before the pending
    /// character, `scan` the layout's answer for it. Returns the events to send.
    pub fn step(&mut self, focus_kept: bool, scan: i16) -> (r: Vec<KeyInput>)
        requires
            old(self).wf(),
            !old(self).done(),
        ensures
            final(self).wf(),
            final(self).text() == old(self).text(),
            final(self).checks() == old(self).checks().push(focus_kept),
            final(self).scans() == old(self).scans().push(scan),
            focus_kept ==> r@ == char_keys(old(self).text()[old(self).typed() as int], scan)
                && final(self).typed() == old(self).typed() + 1 && !final(self).stopped(),
            !focus_kept ==> r@.len() == 0 && final(self).stopped()
                && final(self).typed() == old(self).typed(),
            final(self).sent() == old(self).sent() + r@,
    {
        proof {
            lemma_run_keys_push(self.text@, self.checks@, self.scans@, focus_kept, scan);
        }
        self.checks = Ghost(self.checks@.push(focus_kept));
        self.scans = Ghost(self.scans@.push(scan));
        if !focus_kept {
            self.stopped = true;
            return Vec::new();
        }
        let n = self.text.len();
        let r = send_char_as_virtual(self.text[self.pos], scan);
        assert(self.pos < n);
        self.pos = self.pos + 1;
        r
    }
}

/// Extending the reports of a session that has not stopped adds exactly the
/// keys of the next character, or nothing where focus moved.
proof fn lemma_run_keys_push(text: Seq<char>, checks: Seq<bool>, scans: Seq<i16>, b: bool, s: i16)
    requires
        checks.len() == scans.len(),
        checks.len() < text.len(),
        forall|i: int| 0 <= i < checks.len() ==> #[trigger] checks[i],
    ensures
        run_keys(text, checks.push(b), scans.push(s)) == run_keys(text, checks, scans) + (if b {
            char_keys(text[checks.len() as int], s)
        } else {
            Seq::empty()
        }),
    decreases checks.len(),
{
    if checks.len() == 0 {
        assert(checks.push(b).drop_first() =~= Seq::<bool>::empty());
        assert(run_keys(text, checks, scans) =~= Seq::empty());
        if b {
            assert(scans.push(s).drop_first() =~= Seq::<i16>::empty());
            assert(run_keys(text.drop_first(), checks.push(b).drop_first(), scans.push(s).drop_first())
                =~= Seq::empty());
            assert(run_keys(text, checks.push(b), scans.push(s)) =~= char_keys(text[0], s));
        }
    } else {
        assert(checks.push(b).drop_first() =~= checks.drop_first().push(b));
        assert(scans.push(s).drop_first() =~= scans.drop_first().push(s));
        assert(checks[0]);
        lemma_run_keys_push(text.drop_first(), checks.drop_first(), scans.drop_first(), b, s);
        assert(run_keys(text, checks.push(b), scans.push(s)) =~= run_keys(text, checks, scans) + (if b {
            char_keys(text[checks.len() as int], s)
        } else {
            Seq::empty()
        }));
    }
}

/// Once a focus report says that focus moved, no character from that one on
/// is typed: the session sends exactly the keys of the characters before it.
pub proof fn lemma_typing_stops_at_switch(text: Seq<char>, checks: Seq<bool>, scans: Seq<i16>, i: int)
    requires
        checks.len() == scans.len(),
        checks.len() <= text.len(),
        0 <= i < checks.len(),
        !checks[i],
    ensures
        run_keys(text, checks, scans) == run_keys(text.take(i), checks.take(i), scans.take(i)),
    decreases i,
{
    if i > 0 && checks[0] {
        lemma_typing_stops_at_switch(text.drop_first(), checks.drop_first(), scans.drop_first(), i - 1);
        assert(text.take(i).drop_first() =~= text.drop_first().take(i - 1));
        assert(checks.take(i).drop_first() =~= checks.drop_first().take(i - 1));
        assert(scans.take(i).drop_first() =~= scans.drop_first().take(i - 1));
    }
}

/// Where focus was kept for every character tried, the reports pass all of
/// them: the keys sent are those of each character in turn.
proof fn lemma_run_keys_all_kept(text: Seq<char>, checks: Seq<bool>, scans: Seq<i16>)
    requires
        checks.len() == scans.len(),
        checks.len() <= text.len(),
        forall|i: int| 0 <= i < checks.len() ==> #[trigger] checks[i],
    ensures
        run_keys(text, checks, scans) == text_keys(text.take(checks.len() as int), scans),
    decreases checks.len(),
{
    if checks.len() == 0 {
        assert(text.take(0) =~= Seq::<char>::empty());
    } else {
        assert(checks[0]);
        lemma_run_keys_all_kept(text.drop_first(), checks.drop_first(), scans.drop_first());
        assert(text.take(checks.len() as int).drop_first() =~= text.drop_first().take(checks.len() - 1));
    }
}

impl TextTyping {
    /// A session stopped by a lost focus has sent its opening and the keys of
    /// the characters before the one the report came at, and nothing more: no
    /// character from there on is typed.
    pub proof fn lemma_stopped_session(&self)
        requires
            self.wf(),
            self.stopped(),
        ensures
            self.checks().len() == self.typed() + 1,
            !self.checks()[self.typed() as int],
            self.sent() == opening_keys() + text_keys(self.text().take(self.typed() as int), self.scans()),
    {
        let k = self.typed() as int;
        lemma_typing_stops_at_switch(self.text(), self.checks(), self.scans(), k);
        lemma_run_keys_all_kept(self.text().take(k), self.checks().take(k), self.scans().take(k));
        assert(self.text().take(k).take(k) =~= self.text().take(k));
        lemma_text_keys_scans_prefix(self.text().take(k), self.scans(), k);
    }

    /// A session that ran to its end with focus kept has sent its opening and
    /// the keys of every character of its text, in order.
    pub proof fn lemma_completed_session(&self)
        requires
            self.wf(),
            !self.stopped(),
            self.done(),
        ensures
            self.sent() == opening_keys() + text_keys(self.text(), self.scans()),
    {
        lemma_run_keys_all_kept(self.text(), self.checks(), self.scans());
        assert(self.text().take(self.text().len() as int) =~= self.text());
    }
}

/// Only as many answers as there are characters matter.
proof fn lemma_text_keys_scans_prefix(text: Seq<char>, scans: Seq<i16>, k: int)
    requires
        text.len() == k,
        0 <= k <= scans.len(),
    ensures
        text_keys(text, scans.take(k)) == text_keys(text, scans),
    decreases k,
{
    if k > 0 {
        lemma_text_keys_scans_prefix(text.drop_first(), scans.drop_first(), k - 1);
        assert(scans.take(k).drop_first() =~= scans.drop_first().take(k - 1));
    }
}

/// After the keys of the characters of a text, however many, no key is
/// held; as a prefix of a text is a text, this holds at every boundary between
/// two characters too: nothing is carried from one character into the next.
pub proof fn lemma_no_key_held_after_text(text: Seq<char>, scans: Seq<i16>, key: u16)
    ensures
        !held(text_keys(text, scans), key),
    decreases text.len(),
{
    if text.len() > 0 && scans.len() > 0 {
        lemma_no_key_held_after_char(text[0], scans[0], key);
        lemma_no_key_held_after_text(text.drop_first(), scans.drop_first(), key);
        lemma_not_held_concat(char_keys(text[0], scans[0]), text_keys(text.drop_first(), scans.drop_first()), key);
    }
}

impl TextTyping {
    /// A session that is done, stopped or not, leaves no key held, and none
    /// was held at any boundary between the characters it typed.
    pub proof fn lemma_no_key_held_by_session(&self, key: u16)
        requires
            self.wf(),
            self.done(),
        ensures
            !held(self.sent(), key),
            forall|i: int|
                0 <= i <= self.typed() ==> !held(
                    #[trigger] (opening_keys() + text_keys(self.text().take(i), self.scans())),
                    key,
                ),
    {
        lemma_no_key_held_after_release(key);
        assert forall|i: int| 0 <= i <= self.typed() implies !held(
            #[trigger] (opening_keys() + text_keys(self.text().take(i), self.scans())),
            key,
        ) by {
            lemma_no_key_held_after_text(self.text().take(i), self.scans(), key);
            lemma_not_held_concat(opening_keys(), text_keys(self.text().take(i), self.scans()), key);
        }
        if self.stopped() {
            self.lemma_stopped_session();
        } else {
            self.lemma_completed_session();
            assert(self.text().take(self.typed() as int) =~= self.text());
        }
        assert(self.sent() == opening_keys() + text_keys(self.text().take(self.typed() as int), self.scans()));
    }
}

/// Begins typing `data` into the focused window: the session, and its
/// opening events, which the caller sends before the first step.
pub fn send_text(data: &str) -> (r: (TextTyping, Vec<KeyInput>))
    ensures
        r.0.wf(),
        r.0.text() == data@,
        r.0.typed() == 0,
        !r.0.stopped(),
        r.0.checks().len() == 0,
        r.1@ == opening_keys(),
        r.0.sent() == r.1@,
{
    let n = data.unicode_len();
    let mut text: Vec<char> = Vec::new();
    let mut i: usize = 0;
    while i < n
        invariant
            n == data@.len(),
            i <= n,
            text@ == data@.take(i as int),
        decreases n - i,
    {
        text.push(data.get_char(i));
        i = i + 1;
        assert(text@ =~= data@.take(i as int));
    }
    assert(text@ =~= data@);
    let session = TextTyping { text, pos: 0, stopped: false, checks: Ghost(Seq::empty()), scans: Ghost(Seq::empty()) };
    let opening = release_modifiers();
    assert(session.sent() =~= opening@);
    (session, opening)
}

/// A login typed as three phases, in this order: the user name, a press and
/// release of Tab, the password. Each text phase is a session of its own,
/// opened by releasing the modifiers, and the password phase runs however the
/// user-name phase ended.
pub struct LoginTyping {
    pub username: TextTyping,
    pub username_opening: Vec<KeyInput>,
    pub tab: Vec<KeyInput>,
    pub password: TextTyping,
    pub password_opening: Vec<KeyInput>,
}

impl LoginTyping {
    /// The events of the login so far, phase after phase.
    pub open spec fn sent(&self) -> Seq<KeyInput> {
        self.username.sent() + self.tab@ + self.password.sent()
    }
}

/// The Tab press and release between the phases.
pub open spec fn tab_pair() -> Seq<KeyInput> {
    seq![key_down(VK_TAB), key_up(VK_TAB)]
}

/// However the user-name phase ended, stopped by a lost focus or not, a login
/// whose password phase kept focus sends the user-name phase's events, the Tab
/// pair, then the password's opening and the keys of all of it.
pub proof fn lemma_login_order(login: LoginTyping)
    requires
        login.username.wf(),
        login.username.done(),
        login.tab@ == tab_pair(),
        login.password.wf(),
        login.password.done(),
        !login.password.stopped(),
    ensures
        login.sent() == login.username.sent() + tab_pair() + opening_keys() + text_keys(
            login.password.text(),
            login.password.scans(),
        ),
{
    login.password.lemma_completed_session();
    assert(login.sent() =~= login.username.sent() + tab_pair() + opening_keys() + text_keys(
        login.password.text(),
        login.password.scans(),
    ));
}

/// Begins typing a login: `username`, then Tab, then `pass`. Each phase's
/// opening is sent before its first step.
pub fn send_login(username: &str, pass: &str) -> (r: LoginTyping)
    ensures
        r.username.wf(),
        r.username.text() == username@,
        r.username.typed() == 0,
        !r.username.stopped(),
        r.username.checks().len() == 0,
        r.username_opening@ == opening_keys(),
        r.tab@ == tab_pair(),
        r.password.wf(),
        r.password.text() == pass@,
        r.password.typed() == 0,
        !r.password.stopped(),
        r.password.checks().len() == 0,
        r.password_opening@ == opening_keys(),
        r.sent() == opening_keys() + tab_pair() + opening_keys(),
{
    let (username, username_opening) = send_text(username);
    let tab = tab_keys();
    let (password, password_opening) = send_text(pass);
    LoginTyping { username, username_opening, tab, password, password_opening }
}

} // verus!
