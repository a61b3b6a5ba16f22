//! Phone number normalization: raw contact destinations are canonicalized by
//! stripping every hyphen and prefixing a `+`.

use vstd::prelude::*;

verus! {

/// A character survives normalization exactly when it is not a hyphen.
pub open spec fn not_hyphen(c: char) -> bool {
    c != '-'
}

/// The hyphen-stripping half of normalization.
pub open spec fn strip_hyphens(s: Seq<char>) -> Seq<char> {
    s.filter(|c: char| not_hyphen(c))
}

/// Canonical form of a raw destination string: `+` followed by the input with
/// all hyphens removed.
pub open spec fn normalize_spec(s: Seq<char>) -> Seq<char> {
    seq!['+'] + strip_hyphens(s)
}

/// Converts a raw destination string into its canonical form.
pub fn format_phone_number(number: String) -> (r: String)
    ensures
        r@ == normalize_spec(number@),
{
    let text = number.as_str();
    let len = text.unicode_len();
    let mut r = "+".to_owned();
    proof {
        reveal_strlit("+");
        assert(number@.subrange(0, 0) =~= Seq::<char>::empty());
        assert(strip_hyphens(Seq::<char>::empty()) =~= Seq::<char>::empty());
        assert(r@ =~= seq!['+'] + strip_hyphens(number@.subrange(0, 0)));
    }
    let mut i: usize = 0;
    while i < len
        invariant
            i <= len,
            len == number@.len(),
            text@ == number@,
            r@ == seq!['+'] + strip_hyphens(number@.subrange(0, i as int)),
        decreases len - i,
    {
        let c = text.get_char(i);
        if c != '-' {
            let piece = text.substring_char(i, i + 1);
            r.append(piece);
        }
        proof {
            let prefix = number@.subrange(0, i as int);
            assert(number@.subrange(0, i + 1) =~= prefix.push(number@[i as int]));
            prefix.lemma_filter_push(number@[i as int], |c: char| not_hyphen(c));
            if number@[i as int] != '-' {
                assert(number@.subrange(i as int, i + 1) =~= seq![number@[i as int]]);
                assert(strip_hyphens(prefix.push(number@[i as int])) =~= strip_hyphens(prefix)
                    + seq![number@[i as int]]);
            }
            assert(r@ =~= seq!['+'] + strip_hyphens(number@.subrange(0, i + 1)));
        }
        i = i + 1;
    }
    proof {
        assert(number@.subrange(0, len as int) =~= number@);
    }
    r
}

/// A normalized number never contains a hyphen: the `+` prefix is not one and
/// every hyphen of the input was stripped.
pub proof fn lemma_normalize_strips_all_hyphens(s: Seq<char>)
    ensures
        forall|i: int| 0 <= i < normalize_spec(s).len() ==> not_hyphen(#[trigger] normalize_spec(s)[i]),
{
    let stripped = strip_hyphens(s);
    assert forall|i: int| 0 <= i < stripped.len() implies not_hyphen(stripped[i]) by {
        s.lemma_filter_pred(|c: char| not_hyphen(c), i);
    }
}

/// Normalization is not idempotent: applying it again prepends one more `+`,
/// but it strips nothing further, because the first pass left no hyphen behind.
pub proof fn lemma_normalize_reapplied(s: Seq<char>)
    ensures
        strip_hyphens(normalize_spec(s)) == normalize_spec(s),
        normalize_spec(normalize_spec(s)) == seq!['+'] + normalize_spec(s),
{
    lemma_normalize_strips_all_hyphens(s);
    lemma_filter_keeps_all(normalize_spec(s));
}

/// Filtering for non-hyphens keeps a hyphen-free sequence whole.
proof fn lemma_filter_keeps_all(s: Seq<char>)
    requires
        forall|i: int| 0 <= i < s.len() ==> not_hyphen(#[trigger] s[i]),
    ensures
        strip_hyphens(s) == s,
    decreases s.len(),
{
    if s.len() == 0 {
        assert(strip_hyphens(s) =~= s);
    } else {
        let prefix = s.drop_last();
        lemma_filter_keeps_all(prefix);
        prefix.lemma_filter_push(s.last(), |c: char| not_hyphen(c));
        assert(s =~= prefix.push(s.last()));
        assert(strip_hyphens(s) =~= s);
    }
}

} // verus!
