//! Display names of planets, derived from their index in the simulation.
use vstd::prelude::*;
use vstd::string::*;
use crate::text::{self, push_char, push_decimal};

verus! {

/// How many distinct base names there are before a numeric suffix is added.
pub const NAMES_LEN: usize = 18;

/// The base name for a position in the list of names.
pub open spec fn base_name(k: nat) -> Seq<char> {
    if k == 0 { "Alpha"@ }
    else if k == 1 { "Beta"@ }
    else if k == 2 { "Gamma"@ }
    else if k == 3 { "Delta"@ }
    else if k == 4 { "Epsilon"@ }
    else if k == 5 { "Zeta"@ }
    else if k == 6 { "Eta"@ }
    else if k == 7 { "Theta"@ }
    else if k == 8 { "Iota"@ }
    else if k == 9 { "Kappa"@ }
    else if k == 10 { "Lambda"@ }
    else if k == 11 { "Mu"@ }
    else if k == 12 { "Xi"@ }
    else if k == 13 { "Omicron"@ }
    else if k == 14 { "Rho"@ }
    else if k == 15 { "Sigma"@ }
    else if k == 16 { "Tau"@ }
    else { "Omega"@ }
}

/// The name of the planet at index `idx`: the base name cycles through the
/// list, and from the second round on a space and the round number follow.
pub open spec fn planet_name(idx: nat) -> Seq<char> {
    let repeat = idx / NAMES_LEN as nat;
    if repeat > 0 {
        base_name(idx % NAMES_LEN as nat) + seq![' '] + text::decimal(repeat)
    } else {
        base_name(idx % NAMES_LEN as nat)
    }
}

fn base_name_str(k: usize) -> (s: &'static str)
    requires
        k < NAMES_LEN,
    ensures
        s@ == base_name(k as nat),
{
    if k == 0 { "Alpha" }
    else if k == 1 { "Beta" }
    else if k == 2 { "Gamma" }
    else if k == 3 { "Delta" }
    else if k == 4 { "Epsilon" }
    else if k == 5 { "Zeta" }
    else if k == 6 { "Eta" }
    else if k == 7 { "Theta" }
    else if k == 8 { "Iota" }
    else if k == 9 { "Kappa" }
    else if k == 10 { "Lambda" }
    else if k == 11 { "Mu" }
    else if k == 12 { "Xi" }
    else if k == 13 { "Omicron" }
    else if k == 14 { "Rho" }
    else if k == 15 { "Sigma" }
    else if k == 16 { "Tau" }
    else { "Omega" }
}

/// The display name of the planet with index `idx` in the simulation.
pub fn get_planet_name_from_index(idx: usize) -> (name: String)
    ensures
        name@ == planet_name(idx as nat),
{
    let mut name = String::from_str(base_name_str(idx % NAMES_LEN));
    let repeat = idx / NAMES_LEN;
    if repeat > 0 {
        push_char(&mut name, ' ');
        push_decimal(&mut name, repeat);
    }
    name
}

} // verus!

verus! {

spec fn base_sig(k: nat) -> (nat, char) {
    if k == 0 { (5, 'A') }
    else if k == 1 { (4, 'B') }
    else if k == 2 { (5, 'G') }
    else if k == 3 { (5, 'D') }
    else if k == 4 { (7, 'E') }
    else if k == 5 { (4, 'Z') }
    else if k == 6 { (3, 'E') }
    else if k == 7 { (5, 'T') }
    else if k == 8 { (4, 'I') }
    else if k == 9 { (5, 'K') }
    else if k == 10 { (6, 'L') }
    else if k == 11 { (2, 'M') }
    else if k == 12 { (2, 'X') }
    else if k == 13 { (7, 'O') }
    else if k == 14 { (3, 'R') }
    else if k == 15 { (5, 'S') }
    else if k == 16 { (3, 'T') }
    else { (5, 'O') }
}

proof fn lemma_base_names()
    ensures
        forall|k: nat| k < NAMES_LEN ==> #[trigger] text::is_word(base_name(k)),
        forall|a: nat, b: nat|
            a < NAMES_LEN && b < NAMES_LEN && #[trigger] base_name(a) == #[trigger] base_name(b)
                ==> a == b,
{
    reveal_strlit("Alpha");
    reveal_strlit("Beta");
    reveal_strlit("Gamma");
    reveal_strlit("Delta");
    reveal_strlit("Epsilon");
    reveal_strlit("Zeta");
    reveal_strlit("Eta");
    reveal_strlit("Theta");
    reveal_strlit("Iota");
    reveal_strlit("Kappa");
    reveal_strlit("Lambda");
    reveal_strlit("Mu");
    reveal_strlit("Xi");
    reveal_strlit("Omicron");
    reveal_strlit("Rho");
    reveal_strlit("Sigma");
    reveal_strlit("Tau");
    reveal_strlit("Omega");
    assert forall|k: nat| k < NAMES_LEN implies #[trigger] base_name(k).len() == base_sig(k).0
        && base_name(k)[0] == base_sig(k).1 by {}
    assert forall|a: nat, b: nat|
        a < NAMES_LEN && b < NAMES_LEN && base_sig(a) == base_sig(b) implies a == b by {}
    assert forall|a: nat, b: nat|
        a < NAMES_LEN && b < NAMES_LEN && #[trigger] base_name(a) == #[trigger] base_name(b)
            implies a == b by {
        assert(base_name(a).len() == base_sig(a).0 && base_name(a)[0] == base_sig(a).1);
        assert(base_name(b).len() == base_sig(b).0 && base_name(b)[0] == base_sig(b).1);
    }
}

} // verus!

verus! {

proof fn lemma_decimal_injective(a: nat, b: nat)
    requires
        text::decimal(a) == text::decimal(b),
    ensures
        a == b,
{
    text::lemma_decimal_digits(a);
    text::lemma_decimal_digits(b);
}

/// A name with a round number: the base name, a space, the number.  The
/// first space of the name is right after the base name.
proof fn lemma_suffixed_name(k: nat, r: nat)
    requires
        k < NAMES_LEN,
    ensures
        ({
            let name = base_name(k) + seq![' '] + text::decimal(r);
            &&& name[base_name(k).len() as int] == ' '
            &&& forall|t: int| 0 <= t < base_name(k).len() ==> #[trigger] name[t] != ' '
            &&& name.take(base_name(k).len() as int) == base_name(k)
            &&& name.skip(base_name(k).len() as int + 1) == text::decimal(r)
        }),
{
    lemma_base_names();
    let b = base_name(k);
    let name = b + seq![' '] + text::decimal(r);
    assert(text::is_word(b));
    assert forall|t: int| 0 <= t < b.len() implies #[trigger] name[t] != ' ' by {
        assert(name[t] == b[t]);
        assert(!text::is_white_space(b[t]));
    }
    assert(name.take(b.len() as int) =~= b);
    assert(name.skip(b.len() as int + 1) =~= text::decimal(r));
}

/// Different planets have different names.
pub proof fn lemma_planet_names_distinct(i: nat, j: nat)
    requires
        planet_name(i) == planet_name(j),
    ensures
        i == j,
{
    lemma_base_names();
    let n = NAMES_LEN as nat;
    let (ki, ri) = (i % n, i / n);
    let (kj, rj) = (j % n, j / n);
    let bi = base_name(ki);
    let bj = base_name(kj);
    assert(text::is_word(bi) && text::is_word(bj));
    if ri > 0 && rj > 0 {
        lemma_suffixed_name(ki, ri);
        lemma_suffixed_name(kj, rj);
        let name = planet_name(i);
        if bi.len() < bj.len() {
            assert(name[bi.len() as int] == ' ');
        } else if bj.len() < bi.len() {
            assert(name[bj.len() as int] == ' ');
        }
        assert(bi == bj);
        assert(ki == kj);
        lemma_decimal_injective(ri, rj);
    } else if ri > 0 {
        lemma_suffixed_name(ki, ri);
        assert(planet_name(j) == bj);
        assert(planet_name(i)[bi.len() as int] == ' ');
        assert(!text::is_white_space(bj[bi.len() as int]));
    } else if rj > 0 {
        lemma_suffixed_name(kj, rj);
        assert(planet_name(i) == bi);
        assert(planet_name(j)[bj.len() as int] == ' ');
        assert(!text::is_white_space(bi[bj.len() as int]));
    } else {
        assert(ki == kj);
    }
}

} // verus!
