//! Which window manager the XFCE session file names, and switching it.
//!
//! The session file names its window manager as a quoted word, `"xfwm4"` or
//! `"gala"`. The file is read and rewritten as plain bytes: no XML parsing.
use vstd::prelude::*;
use crate::text::{contains, contains_bytes, replace_all, replace_bytes};
use crate::text::{occurs_at, starts_with};
use crate::text::{lemma_occurs_in_suffix, lemma_prefix_kept, lemma_replace_present, lemma_replace_round_trip};

verus! {

/// The window manager that the session file names.
#[derive(Clone, Copy, Debug, PartialEq, Eq, Structural)]
pub enum WindowManager {
    XFWM4,
    Gala,
    Unknown,
}

/// The byte `"`.
pub const QUOTE: u8 = 34;

/// `"xfwm4"`, the quoted name of the XFCE window manager.
pub open spec fn xfwm4_token() -> Seq<u8> {
    seq![QUOTE, 120u8, 102u8, 119u8, 109u8, 52u8, QUOTE]
}

/// `"gala"`, the quoted name of the Gala window manager.
pub open spec fn gala_token() -> Seq<u8> {
    seq![QUOTE, 103u8, 97u8, 108u8, 97u8, QUOTE]
}

/// The window manager named by the contents: `"xfwm4"` is looked for first.
pub open spec fn classify(contents: Seq<u8>) -> WindowManager {
    if contains(contents, xfwm4_token()) {
        WindowManager::XFWM4
    } else if contains(contents, gala_token()) {
        WindowManager::Gala
    } else {
        WindowManager::Unknown
    }
}

/// The contents after switching: every `"xfwm4"` becomes `"gala"` if there is
/// one, else every `"gala"` becomes `"xfwm4"`, else nothing changes.
pub open spec fn toggled_contents(contents: Seq<u8>) -> Seq<u8> {
    if contains(contents, xfwm4_token()) {
        replace_all(contents, xfwm4_token(), gala_token())
    } else if contains(contents, gala_token()) {
        replace_all(contents, gala_token(), xfwm4_token())
    } else {
        contents
    }
}

/// The window manager chosen by switching the contents.
pub open spec fn toggled_choice(contents: Seq<u8>) -> WindowManager {
    match classify(contents) {
        WindowManager::XFWM4 => WindowManager::Gala,
        WindowManager::Gala => WindowManager::XFWM4,
        WindowManager::Unknown => WindowManager::Unknown,
    }
}

/// The program that is started to take over as `wm`.
pub open spec fn command_name(wm: WindowManager) -> Option<Seq<char>> {
    match wm {
        WindowManager::XFWM4 => Some("xfwm4"@),
        WindowManager::Gala => Some("gala"@),
        WindowManager::Unknown => None,
    }
}

/// The view of an optional program name.
pub open spec fn name_view(name: Option<&str>) -> Option<Seq<char>> {
    match name {
        Some(n) => Some(n@),
        None => None,
    }
}

fn xfwm4_marker() -> (r: Vec<u8>)
    ensures
        r@ == xfwm4_token(),
{
    let r: Vec<u8> = vec![QUOTE, 120u8, 102u8, 119u8, 109u8, 52u8, QUOTE];
    assert(r@ =~= xfwm4_token());
    r
}

fn gala_marker() -> (r: Vec<u8>)
    ensures
        r@ == gala_token(),
{
    let r: Vec<u8> = vec![QUOTE, 103u8, 97u8, 108u8, 97u8, QUOTE];
    assert(r@ =~= gala_token());
    r
}

/// The window manager that the session file's contents name.
pub fn window_manager_in_contents(contents: &[u8]) -> (r: WindowManager)
    ensures
        r == classify(contents@),
{
    let xfwm4 = xfwm4_marker();
    let gala = gala_marker();
    if contains_bytes(contents, xfwm4.as_slice()) {
        WindowManager::XFWM4
    } else if contains_bytes(contents, gala.as_slice()) {
        WindowManager::Gala
    } else {
        WindowManager::Unknown
    }
}

/// Switches the window manager that the contents name: returns the new
/// contents and the window manager that they now select.
pub fn toggle_window_manager_in_contents(contents: &[u8]) -> (r: (Vec<u8>, WindowManager))
    ensures
        r.0@ == toggled_contents(contents@),
        r.1 == toggled_choice(contents@),
{
    let xfwm4 = xfwm4_marker();
    let gala = gala_marker();
    if contains_bytes(contents, xfwm4.as_slice()) {
        (replace_bytes(contents, xfwm4.as_slice(), gala.as_slice()), WindowManager::Gala)
    } else if contains_bytes(contents, gala.as_slice()) {
        (replace_bytes(contents, gala.as_slice(), xfwm4.as_slice()), WindowManager::XFWM4)
    } else {
        let mut same: Vec<u8> = Vec::new();
        let mut i: usize = 0;
        while i < contents.len()
            invariant
                i <= contents@.len(),
                same@ == contents@.subrange(0, i as int),
            decreases contents@.len() - i,
        {
            same.push(contents[i]);
            i = i + 1;
            assert(same@ =~= contents@.subrange(0, i as int));
        }
        assert(same@ =~= contents@);
        (same, WindowManager::Unknown)
    }
}

/// The program to start, with `--replace`, so that `wm` takes over; none for
/// an unknown window manager.
pub fn replace_command(wm: WindowManager) -> (r: Option<&'static str>)
    ensures
        name_view(r) == command_name(wm),
{
    match wm {
        WindowManager::XFWM4 => Some("xfwm4"),
        WindowManager::Gala => Some("gala"),
        WindowManager::Unknown => None,
    }
}

/// The program to start when the session ends: the one of the final window
/// manager, when it differs from the one the session began with.
pub fn restart_command_at_exit(start: WindowManager, end: WindowManager) -> (r: Option<&'static str>)
    ensures
        name_view(r) == (if start != end {
            command_name(end)
        } else {
            None
        }),
{
    if start != end {
        replace_command(end)
    } else {
        None
    }
}

proof fn lemma_token_facts()
    ensures
        xfwm4_token().len() > 0,
        gala_token().len() > 0,
        xfwm4_token()[0] == QUOTE,
        gala_token()[0] == QUOTE,
        forall|k: int| 1 <= k < xfwm4_token().len() - 1 ==> xfwm4_token()[k] != QUOTE,
        forall|k: int| 1 <= k < gala_token().len() - 1 ==> gala_token()[k] != QUOTE,
{
}

/// For contents that name exactly one of the two window managers, and where
/// switching away from `"xfwm4"` does not form a new `"xfwm4"` from the
/// surrounding bytes: the contents name that window manager, switching
/// selects the other one, and switching again selects the first one again.
pub proof fn lemma_toggle_flips(contents: Seq<u8>)
    requires
        contains(contents, xfwm4_token()) != contains(contents, gala_token()),
        contains(contents, xfwm4_token()) ==> !contains(
            replace_all(contents, xfwm4_token(), gala_token()),
            xfwm4_token(),
        ),
    ensures
        classify(contents) == (if contains(contents, xfwm4_token()) {
            WindowManager::XFWM4
        } else {
            WindowManager::Gala
        }),
        toggled_choice(contents) != classify(contents),
        toggled_choice(contents) != WindowManager::Unknown,
        classify(toggled_contents(contents)) == toggled_choice(contents),
        toggled_choice(toggled_contents(contents)) == classify(contents),
{
    lemma_toggle_twice(contents);
}

/// For the same contents: switching twice gives back the same bytes, and the
/// window manager they named.
pub proof fn lemma_toggle_twice(contents: Seq<u8>)
    requires
        contains(contents, xfwm4_token()) != contains(contents, gala_token()),
        contains(contents, xfwm4_token()) ==> !contains(
            replace_all(contents, xfwm4_token(), gala_token()),
            xfwm4_token(),
        ),
    ensures
        toggled_contents(toggled_contents(contents)) == contents,
        toggled_choice(toggled_contents(contents)) == classify(contents),
        classify(toggled_contents(contents)) == toggled_choice(contents),
{
    lemma_token_facts();
    let x = xfwm4_token();
    let g = gala_token();
    if contains(contents, x) {
        let t = replace_all(contents, x, g);
        lemma_replace_present(contents, x, g);
        lemma_replace_round_trip(contents, x, g, QUOTE);
        assert(toggled_contents(contents) == t);
        assert(classify(t) == WindowManager::Gala);
    } else {
        let t = replace_all(contents, g, x);
        lemma_replace_present(contents, g, x);
        lemma_replace_round_trip(contents, g, x, QUOTE);
        assert(toggled_contents(contents) == t);
        assert(classify(t) == WindowManager::XFWM4);
    }
}

/// Contents that name neither window manager stay unknown, and switching
/// leaves their bytes as they are.
pub proof fn lemma_unrecognized_unchanged(contents: Seq<u8>)
    requires
        !contains(contents, xfwm4_token()),
        !contains(contents, gala_token()),
    ensures
        classify(contents) == WindowManager::Unknown,
        toggled_choice(contents) == WindowManager::Unknown,
        toggled_contents(contents) == contents,
{
}

/// No two occurrences of `"xfwm4"` in the contents share a byte.
pub open spec fn xfwm4_tokens_apart(contents: Seq<u8>) -> bool {
    forall|i: int, j: int|
        occurs_at(contents, xfwm4_token(), i) && occurs_at(contents, xfwm4_token(), j) && i < j
            ==> i + xfwm4_token().len() <= j
}

/// Occurrences that do not overlap in the contents do not overlap in a suffix.
proof fn lemma_apart_in_suffix(s: Seq<u8>, k: int)
    requires
        0 <= k <= s.len(),
        xfwm4_tokens_apart(s),
    ensures
        xfwm4_tokens_apart(s.subrange(k, s.len() as int)),
{
    let rest = s.subrange(k, s.len() as int);
    assert forall|i: int, j: int|
        occurs_at(rest, xfwm4_token(), i) && occurs_at(rest, xfwm4_token(), j) && i < j
        implies i + xfwm4_token().len() <= j by {
        lemma_occurs_in_suffix(s, xfwm4_token(), k, i);
        lemma_occurs_in_suffix(s, xfwm4_token(), k, j);
    }
}

/// Where no two `"xfwm4"` overlap, switching them all to `"gala"` leaves no
/// `"xfwm4"` behind: the condition under which switching back and forth
/// selects the other window manager and returns to the first.
pub proof fn lemma_apart_tokens_switch_cleanly(contents: Seq<u8>)
    requires
        xfwm4_tokens_apart(contents),
    ensures
        !contains(replace_all(contents, xfwm4_token(), gala_token()), xfwm4_token()),
    decreases contents.len(),
{
    lemma_token_facts();
    let x = xfwm4_token();
    let g = gala_token();
    let r = replace_all(contents, x, g);
    let w = x.subrange(1, x.len() as int);
    assert forall|k: int| 0 <= k < w.len() - 1 implies w[k] != QUOTE by {
        assert(w[k] == x[k + 1]);
    }
    if contents.len() > 0 {
        if starts_with(contents, x) {
            let rest = contents.subrange(x.len() as int, contents.len() as int);
            lemma_apart_in_suffix(contents, x.len() as int);
            lemma_apart_tokens_switch_cleanly(rest);
            let t = replace_all(rest, x, g);
            assert(r == g + t);
            assert forall|k: int| !occurs_at(r, x, k) by {
                if occurs_at(r, x, k) {
                    let m = r.subrange(k, k + x.len());
                    if k >= g.len() {
                        assert(t.subrange(k - g.len(), k - g.len() + x.len()) =~= m);
                        assert(occurs_at(t, x, k - g.len()));
                    } else if k == 0 {
                        assert(m[1] == g[1]);
                    } else if k < 5 {
                        assert(m[0] == g[k]);
                    } else {
                        assert(k == 5);
                        assert(t.subrange(0, w.len() as int) =~= m.subrange(1, x.len() as int));
                        assert(w =~= m.subrange(1, x.len() as int));
                        assert(starts_with(t, w));
                        lemma_prefix_kept(rest, x, g, w, QUOTE);
                        assert(contents.subrange(0, x.len() as int) == x);
                        assert(contents[6] == contents.subrange(0, x.len() as int)[6]);
                        assert(contents.subrange(6, 13) =~= seq![contents[6]] + rest.subrange(0, w.len() as int));
                        assert(x =~= seq![x[0]] + w);
                        assert(occurs_at(contents, x, 0));
                        assert(occurs_at(contents, x, 6));
                    }
                }
            }
        } else {
            let rest = contents.subrange(1, contents.len() as int);
            lemma_apart_in_suffix(contents, 1);
            lemma_apart_tokens_switch_cleanly(rest);
            let t = replace_all(rest, x, g);
            assert(r == seq![contents[0]] + t);
            assert forall|k: int| !occurs_at(r, x, k) by {
                if occurs_at(r, x, k) {
                    let m = r.subrange(k, k + x.len());
                    if k >= 1 {
                        assert(t.subrange(k - 1, k - 1 + x.len()) =~= m);
                        assert(occurs_at(t, x, k - 1));
                    } else {
                        assert(t.subrange(0, w.len() as int) =~= m.subrange(1, x.len() as int));
                        assert(w =~= m.subrange(1, x.len() as int));
                        assert(starts_with(t, w));
                        lemma_prefix_kept(rest, x, g, w, QUOTE);
                        assert(contents[0] == m[0]);
                        assert(contents.subrange(0, x.len() as int) =~= seq![contents[0]] + rest.subrange(0, w.len() as int));
                        assert(x =~= seq![x[0]] + w);
                    }
                }
            }
        }
    }
}

} // verus!
