//! The plugin's side of the shared engine helper: which package it runs
//! from, how a pane's history state is kept, and which helpers are trusted.
use vstd::prelude::*;
use crate::pages::{join_path};
use crate::text::{chars_of, owned, string_of};

verus! {

/// Whether `std::path::Path` compares `a` and `b` equal (component by
/// component, so `a/b` and `a/b/` are the same path).
pub uninterp spec fn paths_equal(a: Seq<char>, b: Seq<char>) -> bool;

/// Compares two paths with `Path`'s `==`. `Path` implements `Eq`, so a path
/// is equal to itself.
#[verifier::external_body]
pub(crate) fn same_path(a: &str, b: &str) -> (r: bool)
    ensures
        r == paths_equal(a@, b@),
        a@ == b@ ==> r,
{
    std::path::Path::new(a) == std::path::Path::new(b)
}

/// Records the package the plugin runs from. A plugin instance serves one
/// package: another package is refused, and the first one stays.
pub fn configure(slot: &mut Option<String>, package: String) -> (r: Result<(), String>)
    ensures
        match *old(slot) {
            Some(existing) if !paths_equal(existing@, package@) => {
                &&& r matches Err(e) && e@ == "Browser is already loaded from another package"@
                &&& *final(slot) == *old(slot)
            },
            _ => r is Ok && *final(slot) == Some(package),
        },
        // The same package again is always accepted: a path equals itself.
        (*old(slot) matches Some(existing) && existing@ == package@) ==> r is Ok,
{
    let refused = match slot {
        Some(existing) => !same_path(existing.as_str(), package.as_str()),
        None => false,
    };
    if refused {
        return Err(owned("Browser is already loaded from another package"));
    }
    *slot = Some(package);
    Ok(())
}

/// Takes the running engine out of its slot, for the caller to stop it.
pub fn shutdown<T>(slot: &mut Option<T>) -> (r: Option<T>)
    ensures
        r == *old(slot),
        *final(slot) is None,
{
    slot.take()
}

/// The history state byte: bit 0 for "can go back", bit 1 for "can go
/// forward".
pub open spec fn spec_history_bits(back: bool, forward: bool) -> u8 {
    (if back { 1u8 } else { 0u8 }) | (if forward { 2u8 } else { 0u8 })
}

/// Packs a pane's history state into the byte that its listener keeps.
pub fn history_bits(back: bool, forward: bool) -> (r: u8)
    ensures
        r == spec_history_bits(back, forward),
{
    let b: u8 = if back { 1 } else { 0 };
    let f: u8 = if forward { 1 } else { 0 };
    assert((f << 1u8) == (if f == 1 { 2u8 } else { 0u8 })) by (bit_vector)
        requires
            f == 0 || f == 1,
    ;
    b | (f << 1)
}

/// Whether the history byte says the pane can go back.
pub fn can_go_back(bits: u8) -> (r: bool)
    ensures
        r == (bits & 1u8 != 0),
{
    bits & 1 != 0
}

/// Whether the history byte says the pane can go forward.
pub fn can_go_forward(bits: u8) -> (r: bool)
    ensures
        r == (bits & 2u8 != 0),
{
    bits & 2 != 0
}

/// The toolbar's Back and Forward state reads back what the engine's last
/// history event reported.
pub proof fn lemma_history_round_trip(back: bool, forward: bool)
    ensures
        (spec_history_bits(back, forward) & 1u8 != 0) == back,
        (spec_history_bits(back, forward) & 2u8 != 0) == forward,
{
    let b: u8 = if back { 1u8 } else { 0u8 };
    let f: u8 = if forward { 2u8 } else { 0u8 };
    assert((b | f) & 1u8 == b & 1u8 && (b | f) & 2u8 == f & 2u8) by (bit_vector)
        requires
            b == 0 || b == 1,
            f == 0 || f == 2,
    ;
    assert(1u8 & 1u8 == 1u8 && 0u8 & 1u8 == 0u8 && 2u8 & 2u8 == 2u8 && 0u8 & 2u8 == 0u8) by (bit_vector);
}

/// Whether a sandbox helper may be used: a regular file owned by root with
/// permission bits 4755 (set-user-id, readable and runnable by all).
pub open spec fn spec_trusted_sandbox(is_file: bool, uid: u32, mode: u32) -> bool {
    is_file && uid == 0 && mode & 0o7777u32 == 0o4755u32
}

/// Whether a file with this metadata is a trusted sandbox helper.
pub fn trusted_sandbox(is_file: bool, uid: u32, mode: u32) -> (r: bool)
    ensures
        r == spec_trusted_sandbox(is_file, uid, mode),
{
    is_file && uid == 0 && mode & 0o7777 == 0o4755
}

/// The engine helper inside a package.
pub open spec fn spec_helper_path(package: Seq<char>) -> Seq<char> {
    join_path(package, "chartr-browser-helper"@)
}

/// The path of the packaged engine helper.
pub fn helper_path(package: &str) -> (r: String)
    ensures
        r@ == spec_helper_path(package@),
{
    let name = chars_of("chartr-browser-helper");
    crate::pages::join_to(package, name.as_slice())
}

/// The sandbox helpers to try, in order: the package's own, then the one that
/// system packages install.
pub open spec fn spec_sandbox_candidates(package: Seq<char>) -> Seq<Seq<char>> {
    seq![
        join_path(package, "chrome-sandbox"@),
        "/usr/lib/chartr/plugins/com.chartr.browser/chrome-sandbox"@,
    ]
}

/// The sandbox helpers to try for a package, in order.
pub fn sandbox_candidates(package: &str) -> (r: Vec<String>)
    ensures
        r@.map_values(|s: String| s@) == spec_sandbox_candidates(package@),
{
    let name = chars_of("chrome-sandbox");
    let mut r: Vec<String> = Vec::new();
    r.push(crate::pages::join_to(package, name.as_slice()));
    r.push(owned("/usr/lib/chartr/plugins/com.chartr.browser/chrome-sandbox"));
    assert(r@.map_values(|s: String| s@) =~= spec_sandbox_candidates(package@));
    r
}

} // verus!
