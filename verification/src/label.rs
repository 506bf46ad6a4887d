//! Entity labels: byte strings, with minted names for spawned collectibles.
//!
//! The player carries the reserved label `player`. Collectibles spawned on
//! click are named `ferris<n>`, those spawned by the timer `Ferris<n>`,
//! where `n` is the spawn counter at minting time; the counter only ever
//! grows, so minted names are never reused.

use vstd::prelude::*;
use vstd::arithmetic::div_mod::lemma_div_is_strictly_smaller;
use vstd::arithmetic::div_mod::lemma_fundamental_div_mod;

verus! {

/// A label identifying one entity, as a byte string.
pub struct Label {
    pub bytes: Vec<u8>,
}

impl View for Label {
    type V = Seq<u8>;

    open spec fn view(&self) -> Seq<u8> {
        self.bytes@
    }
}

/// The decimal digits of `n`, most significant first.
pub open spec fn spec_digits(n: nat) -> Seq<u8>
    decreases n,
{
    if n < 10 {
        seq![(48 + n) as u8]
    } else {
        spec_digits(n / 10).push((48 + n % 10) as u8)
    }
}

/// The reserved label of the player entity: `player`.
pub open spec fn player_label() -> Seq<u8> {
    seq![112u8, 108u8, 97u8, 121u8, 101u8, 114u8]
}

/// The label minted for the click-spawned collectible number `n`:
/// `ferris<n>`.
pub open spec fn click_label(n: nat) -> Seq<u8> {
    seq![102u8, 101u8, 114u8, 114u8, 105u8, 115u8] + spec_digits(n)
}

/// The label minted for the timer-spawned collectible number `n`:
/// `Ferris<n>`.
pub open spec fn timer_label(n: nat) -> Seq<u8> {
    seq![70u8, 101u8, 114u8, 114u8, 105u8, 115u8] + spec_digits(n)
}

/// A run of decimal digits is at least one byte, and at least two from
/// ten upward.
proof fn lemma_digits_len(n: nat)
    ensures
        spec_digits(n).len() >= 1,
        n >= 10 ==> spec_digits(n).len() >= 2,
    decreases n,
{
    if n >= 10 {
        lemma_div_is_strictly_smaller(n as int, 10);
        lemma_digits_len(n / 10);
    }
}

/// Equal digit runs come from the same number.
proof fn lemma_digits_injective(a: nat, b: nat)
    requires
        spec_digits(a) == spec_digits(b),
    ensures
        a == b,
    decreases a,
{
    lemma_digits_len(a);
    lemma_digits_len(b);
    if a < 10 && b < 10 {
        assert(spec_digits(a)[0] == (48 + a) as u8);
        assert(spec_digits(b)[0] == (48 + b) as u8);
    } else if a >= 10 && b >= 10 {
        lemma_div_is_strictly_smaller(a as int, 10);
        let pa = spec_digits(a / 10);
        let pb = spec_digits(b / 10);
        assert(spec_digits(a).last() == (48 + a % 10) as u8);
        assert(spec_digits(b).last() == (48 + b % 10) as u8);
        assert(pa =~= pb) by {
            assert(pa.len() == spec_digits(a).len() - 1);
            assert(pb.len() == spec_digits(b).len() - 1);
            assert(forall|i: int|
                0 <= i < pa.len() ==> #[trigger] pa[i] == spec_digits(a)[i]);
            assert(forall|i: int|
                0 <= i < pb.len() ==> #[trigger] pb[i] == spec_digits(b)[i]);
        }
        lemma_digits_injective(a / 10, b / 10);
        assert(a % 10 == b % 10);
        lemma_fundamental_div_mod(a as int, 10);
        lemma_fundamental_div_mod(b as int, 10);
    }
}

/// Minted labels are never reused and never collide: two click labels,
/// or two timer labels, agree only when minted from the same counter
/// value; a click label never equals a timer label; and no minted label
/// is the player's. So a registry fed only minted labels from a counter
/// that never decreases never sees a label twice.
pub proof fn lemma_minted_labels_fresh(n: nat, m: nat)
    ensures
        click_label(n) != player_label(),
        timer_label(n) != player_label(),
        click_label(n) != timer_label(m),
        click_label(n) == click_label(m) ==> n == m,
        timer_label(n) == timer_label(m) ==> n == m,
{
    lemma_digits_len(n);
    lemma_digits_len(m);
    assert(click_label(n)[0] == 102);
    assert(timer_label(n)[0] == 70);
    assert(timer_label(m)[0] == 70);
    assert(player_label()[0] == 112);
    if click_label(n) == click_label(m) {
        assert(spec_digits(n) =~= spec_digits(m)) by {
            assert(click_label(n).len() == 6 + spec_digits(n).len());
            assert(click_label(m).len() == 6 + spec_digits(m).len());
            assert(click_label(n).len() == click_label(m).len());
            assert(spec_digits(n).len() == spec_digits(m).len());
            assert forall|i: int|
                0 <= i < spec_digits(n).len() implies spec_digits(n)[i] == spec_digits(
                m,
            )[i] by {
                assert(click_label(n)[6 + i] == spec_digits(n)[i]);
                assert(click_label(m)[6 + i] == spec_digits(m)[i]);
            }
        }
        lemma_digits_injective(n, m);
    }
    if timer_label(n) == timer_label(m) {
        assert(spec_digits(n) =~= spec_digits(m)) by {
            assert(timer_label(n).len() == 6 + spec_digits(n).len());
            assert(timer_label(m).len() == 6 + spec_digits(m).len());
            assert(timer_label(n).len() == timer_label(m).len());
            assert(spec_digits(n).len() == spec_digits(m).len());
            assert forall|i: int|
                0 <= i < spec_digits(n).len() implies spec_digits(n)[i] == spec_digits(
                m,
            )[i] by {
                assert(timer_label(n)[6 + i] == spec_digits(n)[i]);
                assert(timer_label(m)[6 + i] == spec_digits(m)[i]);
            }
        }
        lemma_digits_injective(n, m);
    }
}

/// Append the decimal digits of `n` to `out`.
fn push_digits(out: &mut Vec<u8>, n: u64)
    ensures
        final(out)@ == old(out)@ + spec_digits(n as nat),
    decreases n,
{
    if n >= 10 {
        proof {
            lemma_div_is_strictly_smaller(n as int, 10);
        }
        push_digits(out, n / 10);
        let d: u8 = (n % 10) as u8;
        out.push(48 + d);
        assert(out@ =~= old(out)@ + spec_digits(n as nat));
    } else {
        let d: u8 = n as u8;
        out.push(48 + d);
        assert(out@ =~= old(out)@ + spec_digits(n as nat));
    }
}

impl Label {
    /// The reserved player label.
    pub fn player() -> (l: Label)
        ensures
            l@ == player_label(),
    {
        let mut bytes: Vec<u8> = Vec::new();
        bytes.push(112);
        bytes.push(108);
        bytes.push(97);
        bytes.push(121);
        bytes.push(101);
        bytes.push(114);
        assert(bytes@ =~= player_label());
        Label { bytes }
    }

    /// A label built from arbitrary bytes, for entities named by the host.
    pub fn from_bytes(bytes: Vec<u8>) -> (l: Label)
        ensures
            l@ == bytes@,
    {
        Label { bytes }
    }

    /// Mint the label of the click-spawned collectible number `n`.
    pub fn minted_click(n: u64) -> (l: Label)
        ensures
            l@ == click_label(n as nat),
    {
        let mut bytes: Vec<u8> = Vec::new();
        bytes.push(102);
        bytes.push(101);
        bytes.push(114);
        bytes.push(114);
        bytes.push(105);
        bytes.push(115);
        push_digits(&mut bytes, n);
        assert(bytes@ =~= click_label(n as nat));
        Label { bytes }
    }

    /// Mint the label of the timer-spawned collectible number `n`.
    pub fn minted_timer(n: u64) -> (l: Label)
        ensures
            l@ == timer_label(n as nat),
    {
        let mut bytes: Vec<u8> = Vec::new();
        bytes.push(70);
        bytes.push(101);
        bytes.push(114);
        bytes.push(114);
        bytes.push(105);
        bytes.push(115);
        push_digits(&mut bytes, n);
        assert(bytes@ =~= timer_label(n as nat));
        Label { bytes }
    }

    /// An owned copy of this label.
    pub fn duplicate(&self) -> (l: Label)
        ensures
            l@ == self@,
    {
        let mut bytes: Vec<u8> = Vec::new();
        let mut i: usize = 0;
        while i < self.bytes.len()
            invariant
                i <= self.bytes.len(),
                bytes@ == self.bytes@.take(i as int),
            decreases self.bytes.len() - i,
        {
            bytes.push(self.bytes[i]);
            i = i + 1;
            assert(bytes@ =~= self.bytes@.take(i as int));
        }
        assert(bytes@ =~= self.bytes@);
        Label { bytes }
    }

    /// Whether two labels name the same entity.
    pub fn same_as(&self, other: &Label) -> (r: bool)
        ensures
            r == (self@ == other@),
    {
        if self.bytes.len() != other.bytes.len() {
            return false;
        }
        let mut i: usize = 0;
        while i < self.bytes.len()
            invariant
                i <= self.bytes.len(),
                self.bytes.len() == other.bytes.len(),
                forall|j: int| 0 <= j < i ==> self.bytes@[j] == other.bytes@[j],
            decreases self.bytes.len() - i,
        {
            if self.bytes[i] != other.bytes[i] {
                return false;
            }
            i = i + 1;
        }
        assert(self@ =~= other@);
        true
    }
}

} // verus!
