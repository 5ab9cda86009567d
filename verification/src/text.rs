use vstd::prelude::*;

verus! {

/// The code of `c` after ASCII lower-casing: upper-case ASCII letters move
/// to their lower-case counterpart, every other character stays as it is.
pub open spec fn lower_code(c: char) -> u32 {
    if 'A' <= c && c <= 'Z' {
        (c as u32 + 32) as u32
    } else {
        c as u32
    }
}

/// Two character sequences are equal when ASCII letters are compared
/// without regard to case.
pub open spec fn eq_ignore_case(a: Seq<char>, b: Seq<char>) -> bool {
    &&& a.len() == b.len()
    &&& forall|i: int| 0 <= i < a.len() ==> #[trigger] lower_code(a[i]) == lower_code(b[i])
}

/// The characters of a string, in order.
pub fn chars_of(s: &str) -> (v: Vec<char>)
    ensures
        v@ == s@,
{
    let mut v: Vec<char> = Vec::new();
    for c in it: s.chars()
        invariant
            it.seq() == s@,
            v@ == s@.take(it.index() as int),
    {
        v.push(c);
        assert(v@ =~= s@.take(it.index() + 1));
    }
    assert(v@ =~= s@);
    v
}

/// `lower_code` computed.
pub fn char_lower_code(c: char) -> (r: u32)
    ensures
        r == lower_code(c),
{
    if 'A' <= c && c <= 'Z' {
        c as u32 + 32
    } else {
        c as u32
    }
}

/// Whether `a` and `b` are equal ignoring ASCII case.
pub fn eq_ignore_ascii_case(a: &str, b: &str) -> (r: bool)
    ensures
        r == eq_ignore_case(a@, b@),
        r <==> lowered(a@) == lowered(b@),
{
    let x = chars_of(a);
    let y = chars_of(b);
    if x.len() != y.len() {
        proof {
            eq_ignore_case_law(a@, b@);
        }
        return false;
    }
    let mut i: usize = 0;
    while i < x.len()
        invariant
            x@ == a@,
            y@ == b@,
            x.len() == y.len(),
            i <= x.len(),
            forall|j: int| 0 <= j < i ==> #[trigger] lower_code(a@[j]) == lower_code(b@[j]),
        decreases x.len() - i,
    {
        if char_lower_code(x[i]) != char_lower_code(y[i]) {
            proof {
                eq_ignore_case_law(a@, b@);
            }
            return false;
        }
        i = i + 1;
    }
    proof {
        eq_ignore_case_law(a@, b@);
    }
    true
}

/// `s` holds a NUL character, which a C string cannot carry.
pub open spec fn has_nul(s: Seq<char>) -> bool {
    s.contains('\0')
}

/// Whether `s` holds a NUL character.
pub fn contains_nul(s: &str) -> (r: bool)
    ensures
        r == has_nul(s@),
{
    let v = chars_of(s);
    let mut i: usize = 0;
    while i < v.len()
        invariant
            v@ == s@,
            i <= v.len(),
            forall|k: int| 0 <= k < i ==> v@[k] != '\0',
        decreases v.len() - i,
    {
        if v[i] == '\0' {
            assert(s@[i as int] == '\0');
            return true;
        }
        i = i + 1;
    }
    false
}

/// The text handed out for an error message: the message itself, or a
/// generic one when the message cannot be carried as a C string.
pub open spec fn spec_error_text(message: Seq<char>) -> Seq<char> {
    if has_nul(message) {
        "SMB2 error"@
    } else {
        message
    }
}

/// The text handed out for an error message: the message itself, or
/// `SMB2 error` when the message holds a NUL character.
pub fn error_text(message: &str) -> (r: String)
    ensures
        r@ == spec_error_text(message@),
        !has_nul(r@),
{
    if contains_nul(message) {
        let r = String::from_str("SMB2 error");
        proof {
            reveal_strlit("SMB2 error");
            assert(!has_nul(r@)) by {
                assert forall|k: int| 0 <= k < r@.len() implies r@[k] != '\0' by {}
            }
        }
        r
    } else {
        String::from_str(message)
    }
}

/// The characters of `s` after ASCII lower-casing, as codes.
pub open spec fn lowered(s: Seq<char>) -> Seq<u32> {
    s.map_values(|c: char| lower_code(c))
}

/// Two texts are equal ignoring ASCII case exactly when they are equal,
/// position by position over their whole length, once both are lower-cased:
/// every character counts, not only a prefix.
pub proof fn eq_ignore_case_law(a: Seq<char>, b: Seq<char>)
    ensures
        eq_ignore_case(a, b) <==> lowered(a) == lowered(b),
        eq_ignore_case(a, b) ==> a.len() == b.len(),
        eq_ignore_case(a, b) ==> forall|i: int| 0 <= i < a.len() ==> #[trigger] lower_code(a[i]) == lower_code(b[i]),
        (exists|i: int| 0 <= i < a.len() && i < b.len() && #[trigger] lower_code(a[i]) != lower_code(b[i])) ==> !eq_ignore_case(a, b),
{
    if eq_ignore_case(a, b) {
        assert(lowered(a) =~= lowered(b));
    }
    if lowered(a) == lowered(b) {
        assert(a.len() == lowered(a).len());
        assert forall|i: int| 0 <= i < a.len() implies #[trigger] lower_code(a[i]) == lower_code(b[i]) by {
            assert(lowered(a)[i] == lowered(b)[i]);
        }
    }
    if exists|i: int| 0 <= i < a.len() && i < b.len() && #[trigger] lower_code(a[i]) != lower_code(b[i]) {
        let i = choose|i: int| 0 <= i < a.len() && i < b.len() && #[trigger] lower_code(a[i]) != lower_code(b[i]);
        if eq_ignore_case(a, b) {
            assert(lower_code(a[i]) == lower_code(b[i]));
        }
    }
}

} // verus!
