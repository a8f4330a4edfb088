//! The build command and compiler expression that the Haskell wrapper hands
//! on, made from its own directives (`ghcFlags`, `haskellPackages`).

use vstd::prelude::*;
use crate::raw::{lookup, RawDirectives};
use crate::text::{join_spaced, join_with_spaces};

verus! {

/// The lines of a field joined by spaces; empty when the field is absent.
pub open spec fn joined_field(all: Seq<(Seq<char>, Seq<Seq<char>>)>, name: Seq<char>) -> Seq<char> {
    match lookup(all, name) {
        Some(lines) => join_spaced(lines),
        None => Seq::empty(),
    }
}

fn joined(all: &RawDirectives, name: &str) -> (r: String)
    ensures
        r@ == joined_field(all@, name@),
{
    match all.get(name) {
        Some(lines) => join_with_spaces(lines),
        None => String::new(),
    }
}

/// `mv $SRC $SRC.hs; ghc <ghcFlags> -o $OUT $SRC.hs`
pub fn haskell_build_command(all: &RawDirectives) -> (r: String)
    ensures
        r@ == "mv $SRC $SRC.hs; ghc "@ + joined_field(all@, "ghcFlags"@) + " -o $OUT $SRC.hs"@,
{
    let mut r = String::from_str("mv $SRC $SRC.hs; ghc ");
    let flags = joined(all, "ghcFlags");
    r.append(flags.as_str());
    r.append(" -o $OUT $SRC.hs");
    r
}

/// `haskellPackages.ghcWithPackages (ps: with ps; [ <haskellPackages> ])`
pub fn haskell_compiler(all: &RawDirectives) -> (r: String)
    ensures
        r@ == "haskellPackages.ghcWithPackages (ps: with ps; [ "@ + joined_field(all@, "haskellPackages"@)
            + " ])"@,
{
    let mut r = String::from_str("haskellPackages.ghcWithPackages (ps: with ps; [ ");
    let packages = joined(all, "haskellPackages");
    r.append(packages.as_str());
    r.append(" ])");
    r
}

} // verus!
