use vstd::prelude::*;

use crate::text::chars_of;

verus! {

/// Port the SMB service listens on unless the address names another one.
pub open spec fn default_port() -> Seq<char> {
    seq![':', '4', '4', '5']
}

/// Number of occurrences of `c` in `s`.
pub open spec fn count_char(s: Seq<char>, c: char) -> nat
    decreases s.len(),
{
    if s.len() == 0 {
        0
    } else {
        count_char(s.drop_last(), c) + if s.last() == c {
            1nat
        } else {
            0nat
        }
    }
}

/// `s` holds a `]` immediately followed by a `:`.
pub open spec fn has_bracket_port(s: Seq<char>) -> bool {
    exists|i: int| 0 <= i && i + 1 < s.len() && s[i] == ']' && #[trigger] s[i + 1] == ':'
}

/// The `host:port` address dialled for `server`: a bracketed IPv6 literal
/// keeps a port it already names and gets the default one otherwise; a name
/// with no colon gets the default port; a name with one colon already names
/// its port; a name with several colons is an IPv6 literal, which is
/// bracketed and given the default port.
pub open spec fn spec_address(s: Seq<char>) -> Seq<char> {
    if s.len() > 0 && s[0] == '[' {
        if has_bracket_port(s) {
            s
        } else {
            s + default_port()
        }
    } else if count_char(s, ':') == 0 {
        s + default_port()
    } else if count_char(s, ':') == 1 {
        s
    } else {
        seq!['['] + s + seq![']'] + default_port()
    }
}

/// The address of `server` as `host:port`, with the SMB port 445 added when
/// the server names none.
pub fn address(server: &str) -> (r: String)
    ensures
        r@ == spec_address(server@),
{
    let v = chars_of(server);
    let n = v.len();
    if n > 0 && v[0] == '[' {
        let mut found = false;
        let mut i: usize = 0;
        while i + 1 < n
            invariant
                v@ == server@,
                n == v.len(),
                i < n,
                found == exists|k: int| 0 <= k < i && k + 1 < n && v@[k] == ']' && #[trigger] v@[k + 1] == ':',
            decreases n - i,
        {
            if v[i] == ']' && v[i + 1] == ':' {
                found = true;
            }
            i = i + 1;
        }
        assert(found == has_bracket_port(server@)) by {
            if has_bracket_port(server@) {
                let k = choose|k: int| 0 <= k && k + 1 < server@.len() && server@[k] == ']' && #[trigger] server@[k + 1] == ':';
                assert(0 <= k < i);
            }
        }
        if found {
            String::from_str(server)
        } else {
            with_default_port(server)
        }
    } else {
        let mut count: usize = 0;
        let mut i: usize = 0;
        while i < n
            invariant
                v@ == server@,
                n == v.len(),
                i <= n,
                count == count_char(server@.take(i as int), ':'),
                count <= i,
            decreases n - i,
        {
            assert(server@.take(i + 1).drop_last() =~= server@.take(i as int));
            if v[i] == ':' {
                count = count + 1;
            }
            i = i + 1;
        }
        assert(server@.take(n as int) =~= server@);
        if count == 0 {
            with_default_port(server)
        } else if count == 1 {
            String::from_str(server)
        } else {
            let mut r = String::from_str("[");
            r.append(server);
            r.append("]:445");
            proof {
                reveal_strlit("[");
                reveal_strlit("]:445");
                assert(r@ =~= seq!['['] + server@ + seq![']'] + default_port());
            }
            r
        }
    }
}

/// Counting a character over a concatenation adds the two counts.
pub proof fn lemma_count_char_concat(a: Seq<char>, b: Seq<char>, c: char)
    ensures
        count_char(a + b, c) == count_char(a, c) + count_char(b, c),
    decreases b.len(),
{
    if b.len() == 0 {
        assert(a + b =~= a);
    } else {
        assert((a + b).drop_last() =~= a + b.drop_last());
        lemma_count_char_concat(a, b.drop_last(), c);
    }
}

/// An address that already names its port is left as it is: dialling the
/// address of an address gives the same address. The one exception is a
/// server that opens a bracket and names no port without closing the bracket
/// at its end (such as `[fe80::1`), whose address `[fe80::1:445` is again
/// unbracketed-looking to the rule and gains a second port.
pub proof fn address_idempotent(s: Seq<char>)
    requires
        !(s.len() > 0 && s[0] == '[' && !has_bracket_port(s) && s.last() != ']'),
    ensures
        spec_address(spec_address(s)) == spec_address(s),
{
    let p = default_port();
    if s.len() > 0 && s[0] == '[' {
        if !has_bracket_port(s) {
            let r = s + p;
            assert(r[0] == '[');
            let k: int = s.len() - 1;
            assert(r[k] == ']' && r[k + 1] == ':');
            assert(has_bracket_port(r));
        }
    } else if count_char(s, ':') == 0 {
        let r = s + p;
        lemma_count_char_concat(s, p, ':');
        reveal_with_fuel(count_char, 5);
        assert(count_char(p, ':') == 1);
        if s.len() == 0 {
            assert(r[0] == ':');
        } else {
            assert(r[0] == s[0]);
        }
    } else if count_char(s, ':') >= 2 {
        let r = seq!['['] + s + seq![']'] + p;
        assert(r[0] == '[');
        let k: int = s.len() as int + 1;
        assert(r[k] == ']' && r[k + 1] == ':');
        assert(has_bracket_port(r));
    }
}

/// The address of a server is the server itself (when it already names a
/// port), the server followed by `:445`, or the server in brackets followed
/// by `:445`; and it always holds a colon, that is, it always names a port.
pub proof fn address_shape(s: Seq<char>)
    ensures
        spec_address(s) == s || spec_address(s) == s + seq![':', '4', '4', '5']
            || spec_address(s) == seq!['['] + s + seq![']', ':', '4', '4', '5'],
        spec_address(s) == s ==> count_char(s, ':') >= 1,
        count_char(spec_address(s), ':') >= 1,
{
    let p = seq![':', '4', '4', '5'];
    assert(default_port() == p);
    reveal_with_fuel(count_char, 5);
    assert(count_char(p, ':') == 1);
    assert(seq![']', ':', '4', '4', '5'] =~= seq![']'] + p);
    lemma_count_char_concat(seq![']'], p, ':');
    assert(count_char(seq![']'], ':') == 0);
    assert(count_char(seq![']', ':', '4', '4', '5'], ':') == 1);
    lemma_count_char_concat(s, p, ':');
    lemma_count_char_concat(seq!['['] + s, seq![']', ':', '4', '4', '5'], ':');
    assert(seq!['['] + s + seq![']'] + p =~= (seq!['['] + s) + seq![']', ':', '4', '4', '5']);
    if s.len() > 0 && s[0] == '[' && has_bracket_port(s) {
        let k = choose|k: int| 0 <= k && k + 1 < s.len() && s[k] == ']' && #[trigger] s[k + 1] == ':';
        lemma_count_char_has(s, k + 1, ':');
    }
}

/// A character that occurs in a text is counted.
pub proof fn lemma_count_char_has(s: Seq<char>, k: int, c: char)
    requires
        0 <= k < s.len(),
        s[k] == c,
    ensures
        count_char(s, c) >= 1,
    decreases s.len(),
{
    if k < s.len() - 1 {
        lemma_count_char_has(s.drop_last(), k, c);
    }
}

fn with_default_port(server: &str) -> (r: String)
    ensures
        r@ == server@ + default_port(),
{
    let mut r = String::from_str(server);
    r.append(":445");
    proof {
        reveal_strlit(":445");
        assert(r@ =~= server@ + default_port());
    }
    r
}

} // verus!
