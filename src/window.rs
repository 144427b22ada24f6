//! Naming the focused window, and the next visible one, as
//! `windowsapp://<executable>/<title>`.
//!
//! The caller reads the raw text buffers and process identity from the
//! platform; the decoding, the fallbacks and the composition are made here.
use vstd::prelude::*;
use widestring::{U16CStr, U16Str};

verus! {

/// The capacity, in UTF-16 units, of the buffers that titles and image paths
/// are read into; longer text is cut there.
pub const MAX_WINDOW_TITLE_LENGTH: usize = 1024;

/// How many windows a walk to the next visible window looks at before it gives up.
pub const MAX_WINDOW_WALK: usize = 4096;

/// Why a window could not be named.
#[derive(Clone, Copy, Debug, PartialEq, Eq, Structural)]
pub enum WindowError {
    /// The title buffer holds no terminating nul: the window has no title at all.
    MissingTitle,
    /// The walk found no visible window within its bound.
    NoVisibleWindow,
}

/// What decoding UTF-16 units yields, invalid sequences replaced by U+FFFD.
pub uninterp spec fn utf16_lossy(units: Seq<u16>) -> Seq<char>;

/// The units of `buf` before its first nul (all of them where it has none).
pub open spec fn until_nul(buf: Seq<u16>) -> Seq<u16>
    decreases buf.len(),
{
    if buf.len() == 0 || buf[0] == 0 {
        Seq::empty()
    } else {
        seq![buf[0]] + until_nul(buf.drop_first())
    }
}

/// Relies on widestring's `U16CStr::from_slice_truncate`: the string ends at
/// the first nul of the slice, and there is an error where the slice has none.
#[verifier::external_body]
fn truncate_at_nul(buf: &[u16]) -> (r: Option<Vec<u16>>)
    ensures
        r is None <==> !buf@.contains(0u16),
        r matches Some(v) ==> v@ == until_nul(buf@),
{
    match U16CStr::from_slice_truncate(buf) {
        Ok(s) => Some(s.as_slice().to_vec()),
        Err(_) => None,
    }
}

/// Relies on widestring's `U16Str::to_string_lossy`: a function of the units
/// alone, and no units give the empty string.
#[verifier::external_body]
fn decode_lossy(units: &[u16]) -> (r: String)
    ensures
        r@ == utf16_lossy(units@),
        units@.len() == 0 ==> r@.len() == 0,
{
    U16Str::from_slice(units).to_string_lossy()
}

/// The text of a nul-terminated buffer, decoded; `None` where it has no nul.
pub fn decode_terminated(buf: &[u16]) -> (r: Option<String>)
    ensures
        r is None <==> !buf@.contains(0u16),
        r matches Some(s) ==> s@ == utf16_lossy(until_nul(buf@)),
        r matches Some(s) ==> (until_nul(buf@).len() == 0 ==> s@.len() == 0),
{
    match truncate_at_nul(buf) {
        None => None,
        Some(units) => Some(decode_lossy(units.as_slice())),
    }
}

/// The title read into `buf` (of `MAX_WINDOW_TITLE_LENGTH` units, zeroed
/// before the read): the units before the first nul, decoded. A buffer with
/// no nul means the window has no title.
pub fn window_title(buf: &[u16]) -> (r: Result<String, WindowError>)
    ensures
        r is Err <==> !buf@.contains(0u16),
        r matches Err(e) ==> e == WindowError::MissingTitle,
        r matches Ok(s) ==> s@ == utf16_lossy(until_nul(buf@)),
        r matches Ok(s) ==> (until_nul(buf@).len() == 0 ==> s@.len() == 0),
{
    match decode_terminated(buf) {
        None => Err(WindowError::MissingTitle),
        Some(s) => Ok(s),
    }
}

/// The file name in `path`: what follows its last backslash, or all of it
/// where it has none.
pub open spec fn file_name(path: Seq<char>) -> Seq<char>
    decreases path.len(),
{
    if path.len() == 0 || path.last() == '\\' {
        Seq::empty()
    } else {
        file_name(path.drop_last()).push(path.last())
    }
}

/// A suffix that follows a backslash, or the whole path, and holds no
/// backslash is the file name.
proof fn lemma_file_name_suffix(path: Seq<char>, k: int)
    requires
        0 <= k <= path.len(),
        k == 0 || path[k - 1] == '\\',
        forall|j: int| k <= j < path.len() ==> path[j] != '\\',
    ensures
        file_name(path) == path.subrange(k, path.len() as int),
    decreases path.len(),
{
    if path.len() == k {
        assert(path.subrange(k, path.len() as int) =~= Seq::<char>::empty());
    } else {
        lemma_file_name_suffix(path.drop_last(), k);
        assert(path.subrange(k, path.len() as int) =~= path.drop_last().subrange(k, path.len() - 1).push(
            path.last(),
        ));
    }
}

/// The name of the executable behind a window, as the platform reports it:
/// none without an owning process (`pid` zero) or where the process could not
/// be opened (`image` absent); else the file name of its image path.
pub open spec fn executable_name(pid: u32, image: Option<Seq<u16>>) -> Option<Seq<char>> {
    if pid == 0 {
        None
    } else {
        match image {
            None => None,
            Some(buf) => if buf.contains(0u16) {
                Some(file_name(utf16_lossy(until_nul(buf))))
            } else {
                None
            },
        }
    }
}

/// The units a buffer holds, where there is one.
pub open spec fn units_of(image: Option<Vec<u16>>) -> Option<Seq<u16>> {
    match image {
        Some(v) => Some(v@),
        None => None,
    }
}

/// The characters a string holds, where there is one.
pub open spec fn text_of(s: Option<String>) -> Option<Seq<char>> {
    match s {
        Some(t) => Some(t@),
        None => None,
    }
}

/// The file name of `path`.
pub fn path_file_name(path: &str) -> (r: String)
    ensures
        r@ == file_name(path@),
{
    let n = path.unicode_len();
    let mut k: usize = n;
    while k > 0 && path.get_char(k - 1) != '\\'
        invariant
            n == path@.len(),
            k <= n,
            forall|j: int| k <= j < n ==> path@[j] != '\\',
        decreases k,
    {
        k = k - 1;
    }
    proof {
        lemma_file_name_suffix(path@, k as int);
    }
    path.substring_char(k, n).to_owned()
}

/// The executable of the window whose owning process is `pid`; `image` is
/// its image path as read into a `MAX_WINDOW_TITLE_LENGTH`-unit buffer, or
/// `None` where the process could not be opened. Never an error: a window
/// that cannot be looked into has no identity.
pub fn window_executable(pid: u32, image: &Option<Vec<u16>>) -> (r: Option<String>)
    ensures
        r is None <==> executable_name(pid, units_of(*image)) is None,
        r matches Some(s) ==> executable_name(pid, units_of(*image)) == Some(s@),
{
    if pid == 0 {
        return None;
    }
    match image {
        None => None,
        Some(buf) => match decode_terminated(buf.as_slice()) {
            None => None,
            Some(path) => Some(path_file_name(path.as_str())),
        },
    }
}

pub open spec fn app_prefix() -> Seq<char> {
    "windowsapp://"@
}

pub open spec fn unknown_executable() -> Seq<char> {
    "unknown"@
}

/// The identity of a window: the prefix, the executable (or the placeholder
/// "unknown"), a slash and the title, with nothing escaped.
pub open spec fn window_identity(executable: Option<Seq<char>>, title: Seq<char>) -> Seq<char> {
    app_prefix() + match executable {
        Some(e) => e,
        None => unknown_executable(),
    } + "/"@ + title
}

/// Every identity reads back as its parts, whatever they hold: the prefix,
/// the executable or "unknown" where there is none, one slash, then the title
/// as it was, an empty one included.
pub proof fn lemma_identity_shape(executable: Option<Seq<char>>, title: Seq<char>)
    ensures
        ({
            let w = window_identity(executable, title);
            let p = app_prefix().len() as int;
            let e = match executable {
                Some(e) => e,
                None => unknown_executable(),
            };
            &&& w.len() == p + e.len() + 1 + title.len()
            &&& w.subrange(0, p) == app_prefix()
            &&& w.subrange(p, p + e.len()) == e
            &&& w[p + e.len()] == '/'
            &&& w.subrange(p + e.len() + 1, w.len() as int) == title
        }),
{
    reveal_strlit("/");
    let w = window_identity(executable, title);
    let p = app_prefix().len() as int;
    let e = match executable {
        Some(e) => e,
        None => unknown_executable(),
    };
    assert(w =~= app_prefix() + e + "/"@ + title);
    assert(w.subrange(0, p) =~= app_prefix());
    assert(w.subrange(p, p + e.len()) =~= e);
    assert(w.subrange(p + e.len() + 1, w.len() as int) =~= title);
}

/// Composes the identity string of a window.
pub fn window_url(executable: &Option<String>, title: &str) -> (r: String)
    ensures
        r@ == window_identity(text_of(*executable), title@),
{
    let mut r = String::from_str("windowsapp://");
    match executable {
        Some(e) => r.append(e.as_str()),
        None => r.append("unknown"),
    }
    r.append("/");
    r.append(title);
    r
}

/// The identity of the focused window, from its title buffer, its owning
/// process id and its image-path buffer (absent where the process could not
/// be opened). Fails only where the window has no title.
pub fn active_window_url(title_buf: &[u16], pid: u32, image: &Option<Vec<u16>>) -> (r: Result<
    String,
    WindowError,
>)
    ensures
        r is Err <==> !title_buf@.contains(0u16),
        r matches Err(e) ==> e == WindowError::MissingTitle,
        r matches Ok(s) ==> s@ == window_identity(
            executable_name(pid, units_of(*image)),
            utf16_lossy(until_nul(title_buf@)),
        ),
        until_nul(title_buf@).len() == 0 ==> (r matches Ok(s) ==> s@ == window_identity(
            executable_name(pid, units_of(*image)),
            Seq::empty(),
        )),
{
    let title = match window_title(title_buf) {
        Err(e) => return Err(e),
        Ok(t) => t,
    };
    let executable = window_executable(pid, image);
    Ok(window_url(&executable, title.as_str()))
}

/// What the caller does after reporting one window of the walk.
#[derive(Clone, Copy, Debug, PartialEq, Eq, Structural)]
pub enum WalkAction {
    /// This window is the one: name it.
    Select,
    /// Move to the next window in Z-order and report it.
    Next,
    /// Stop: no visible window was found within the bound.
    GiveUp,
}

/// Whether a walk over the reports `visibility` has ended: at the first
/// visible window, or after `MAX_WINDOW_WALK` windows.
pub open spec fn walk_ended(visibility: Seq<bool>) -> bool {
    (visibility.len() > 0 && visibility.last()) || visibility.len() >= MAX_WINDOW_WALK
}

/// A walk from the focused window down the Z-order to the first visible one.
pub struct WindowWalk {
    seen: usize,
    selected: bool,
    visibility: Ghost<Seq<bool>>,
}

impl WindowWalk {
    /// The visibility reports received, one per window after the focused one.
    pub closed spec fn visibility(&self) -> Seq<bool> {
        self.visibility@
    }

    pub closed spec fn wf(&self) -> bool {
        &&& self.seen == self.visibility@.len()
        &&& self.seen <= MAX_WINDOW_WALK
        &&& forall|i: int| 0 <= i < self.seen - 1 ==> !#[trigger] self.visibility@[i]
        &&& self.selected <==> (self.seen > 0 && self.visibility@.last())
    }

    /// Whether the walk selected a window: the last one reported.
    pub open spec fn selected(&self) -> bool {
        self.visibility().len() > 0 && self.visibility().last()
    }

    pub open spec fn ended(&self) -> bool {
        walk_ended(self.visibility())
    }

    /// A walk that has looked at no window yet.
    pub fn new() -> (r: WindowWalk)
        ensures
            r.wf(),
            r.visibility().len() == 0,
    {
        WindowWalk { seen: 0, selected: false, visibility: Ghost(Seq::empty()) }
    }

    /// Whether the walk has ended.
    pub fn is_ended(&self) -> (r: bool)
        requires
            self.wf(),
        ensures
            r == self.ended(),
    {
        self.selected || self.seen >= MAX_WINDOW_WALK
    }

    /// Whether the walk ended on a visible window.
    pub fn is_selected(&self) -> (r: bool)
        requires
            self.wf(),
        ensures
            r == self.selected(),
    {
        self.selected
    }

    /// Reports whether the next window in Z-order is visible.
    pub fn observe(&mut self, visible: bool) -> (r: WalkAction)
        requires
            old(self).wf(),
            !old(self).ended(),
        ensures
            final(self).wf(),
            final(self).visibility() == old(self).visibility().push(visible),
            visible ==> r == WalkAction::Select,
            !visible && final(self).visibility().len() < MAX_WINDOW_WALK ==> r == WalkAction::Next,
            !visible && final(self).visibility().len() >= MAX_WINDOW_WALK ==> r == WalkAction::GiveUp,
    {
        self.visibility = Ghost(self.visibility@.push(visible));
        self.seen = self.seen + 1;
        if visible {
            self.selected = true;
            WalkAction::Select
        } else if self.seen < MAX_WINDOW_WALK {
            WalkAction::Next
        } else {
            WalkAction::GiveUp
        }
    }
}

/// A walk that selected a window skipped only invisible ones: the window it
/// names is the first whose report was visible.
pub proof fn lemma_walk_selects_first_visible(w: WindowWalk)
    requires
        w.wf(),
        w.selected(),
    ensures
        forall|i: int| 0 <= i < w.visibility().len() - 1 ==> !#[trigger] w.visibility()[i],
        w.visibility().last(),
{
}

/// The identity of the window that a finished walk ended on, read as for
/// the focused window; an error where the walk gave up or that window has
/// no title.
pub fn next_window_url(walk: &WindowWalk, title_buf: &[u16], pid: u32, image: &Option<Vec<u16>>) -> (r:
    Result<String, WindowError>)
    requires
        walk.wf(),
        walk.ended(),
    ensures
        !walk.selected() ==> r == Err::<String, WindowError>(WindowError::NoVisibleWindow),
        walk.selected() ==> (r is Err <==> !title_buf@.contains(0u16)),
        walk.selected() ==> (r matches Err(e) ==> e == WindowError::MissingTitle),
        r matches Ok(s) ==> s@ == window_identity(
            executable_name(pid, units_of(*image)),
            utf16_lossy(until_nul(title_buf@)),
        ),
        until_nul(title_buf@).len() == 0 ==> (r matches Ok(s) ==> s@ == window_identity(
            executable_name(pid, units_of(*image)),
            Seq::empty(),
        )),
{
    if !walk.is_selected() {
        return Err(WindowError::NoVisibleWindow);
    }
    active_window_url(title_buf, pid, image)
}

} // verus!
