//! Masked previews of secret values.
use vstd::prelude::*;
use crate::text::stars;

verus! {

/// Characters kept visible at the start of a value of `n` characters.
pub open spec fn mask_head_len(n: nat) -> nat {
    if n > 8 {
        4
    } else {
        ((n - n / 2) as nat) / 2
    }
}

/// Asterisks that stand in the middle of the preview of a value of `n` characters.
pub open spec fn mask_star_count(n: nat) -> nat {
    if n > 8 {
        3
    } else {
        n / 2
    }
}

/// Characters kept visible at the end of a value of `n` characters.
pub open spec fn mask_tail_len(n: nat) -> nat {
    if n > 8 {
        4
    } else {
        ((n - n / 2) - ((n - n / 2) as nat) / 2) as nat
    }
}

/// The masked preview of a value: values longer than eight characters keep four
/// characters at each end around `***`; shorter values hide half their length (rounded
/// down) behind asterisks, the visible rest split between the ends with the larger half
/// last.
pub open spec fn mask_chars(s: Seq<char>) -> Seq<char> {
    let n = s.len();
    s.subrange(0, mask_head_len(n) as int) + stars(mask_star_count(n)) + s.subrange(
        n - mask_tail_len(n),
        n as int,
    )
}

/// Masks a secret value for display.
pub fn mask_value(value: &str) -> (masked: String)
    ensures
        masked@ == mask_chars(value@),
        value@.len() > 8 ==> masked@ == value@.subrange(0, 4) + seq!['*', '*', '*'] + value@.subrange(
            value@.len() - 4,
            value@.len() as int,
        ),
{
    let len = value.unicode_len();
    let ghost s = value@;
    if len == 0 {
        let out = String::new();
        proof {
            assert(mask_chars(s) =~= Seq::<char>::empty());
        }
        return out;
    }
    if len == 1 {
        let out = value.to_owned();
        proof {
            assert(mask_head_len(1) == 0 && mask_tail_len(1) == 1 && mask_star_count(1) == 0);
            assert(mask_chars(s) =~= s);
        }
        return out;
    }
    let (head_n, stars_n, tail_n): (usize, usize, usize) = if len > 8 {
        (4, 3, 4)
    } else {
        let hidden: usize = len / 2;
        let visible: usize = len - hidden;
        let head: usize = visible / 2;
        (head, hidden, visible - head)
    };
    assert(head_n == mask_head_len(s.len()));
    assert(stars_n == mask_star_count(s.len()));
    assert(tail_n == mask_tail_len(s.len()));
    let head = value.substring_char(0, head_n);
    let tail = value.substring_char(len - tail_n, len);
    let mut out = String::new();
    out.append(head);
    let mut i: usize = 0;
    while i < stars_n
        invariant
            i <= stars_n,
            out@ == head@ + stars(i as nat),
        decreases stars_n - i,
    {
        proof {
            reveal_strlit("*");
        }
        out.append("*");
        assert(out@ =~= head@ + stars((i + 1) as nat));
        i = i + 1;
    }
    out.append(tail);
    assert(out@ =~= mask_chars(s));
    proof {
        if s.len() > 8 {
            lemma_mask_long(s);
        }
    }
    out
}

/// A preview is as long as the value for values of up to eight characters, and eleven
/// characters long for longer ones; it shows at most eight characters of the value, and
/// for values of two to eight characters hides half of them (rounded down).
pub proof fn lemma_mask_length(s: Seq<char>)
    ensures
        s.len() <= 8 ==> mask_chars(s).len() == s.len(),
        s.len() > 8 ==> mask_chars(s).len() == 11,
        mask_head_len(s.len()) + mask_tail_len(s.len()) <= 8,
        mask_head_len(s.len()) + mask_tail_len(s.len()) <= s.len(),
        2 <= s.len() <= 8 ==> mask_star_count(s.len()) == s.len() / 2,
{
}

/// A value longer than eight characters is previewed as its first four characters, `***`
/// and its last four characters.
pub proof fn lemma_mask_long(s: Seq<char>)
    requires
        s.len() > 8,
    ensures
        mask_chars(s) == s.subrange(0, 4) + seq!['*', '*', '*'] + s.subrange(s.len() - 4, s.len() as int),
{
    assert(stars(3) =~= seq!['*', '*', '*']);
}

/// A value of at most eight characters keeps its length: half of it, rounded down, is
/// hidden by asterisks in the middle; of the rest, the first half (rounded down) stays
/// visible at the start and the remainder at the end.
pub proof fn lemma_mask_short(s: Seq<char>)
    requires
        s.len() <= 8,
    ensures
        ({
            let n = s.len() as int;
            let hidden = n / 2;
            let head = (n - hidden) / 2;
            let r = mask_chars(s);
            &&& r.len() == n
            &&& forall|i: int| 0 <= i < head ==> #[trigger] r[i] == s[i]
            &&& forall|i: int| head <= i < head + hidden ==> #[trigger] r[i] == '*'
            &&& forall|i: int| head + hidden <= i < n ==> #[trigger] r[i] == s[i]
        }),
{
}

} // verus!
