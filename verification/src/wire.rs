//! The wire format: one JSON-RPC 2.0 request per newline-terminated line.
//!
//! The envelope `{"jsonrpc":"2.0","id":...,"method":"...","params":...}` is
//! assembled here character for character, so the text of every outbound
//! line is pinned by `request_text`. The caller supplies the params as
//! already-serialized JSON text; the three protocol methods carry no
//! characters that would need escaping inside a JSON string.

use vstd::prelude::*;

verus! {

/// The decimal digit character for `d` (`d < 10`).
pub open spec fn digit_char(d: nat) -> char {
    if d == 0 {
        '0'
    } else if d == 1 {
        '1'
    } else if d == 2 {
        '2'
    } else if d == 3 {
        '3'
    } else if d == 4 {
        '4'
    } else if d == 5 {
        '5'
    } else if d == 6 {
        '6'
    } else if d == 7 {
        '7'
    } else if d == 8 {
        '8'
    } else {
        '9'
    }
}

/// The decimal digit string of `n`, most significant digit first, with no
/// leading zero except for `n == 0` itself.
pub open spec fn dec_seq(n: nat) -> Seq<char>
    decreases n,
{
    if n < 10 {
        seq![digit_char(n)]
    } else {
        dec_seq(n / 10).push(digit_char(n % 10))
    }
}

/// Every character of a decimal digit string is a digit.
pub proof fn lemma_dec_seq_digits(n: nat)
    ensures
        dec_seq(n).len() >= 1,
        forall|i: int|
            0 <= i < dec_seq(n).len() ==> '0' <= #[trigger] dec_seq(n)[i] <= '9',
    decreases n,
{
    if n >= 10 {
        lemma_dec_seq_digits(n / 10);
        assert forall|i: int|
            0 <= i < dec_seq(n).len() implies '0' <= #[trigger] dec_seq(n)[i] <= '9' by {
            if i < dec_seq(n / 10).len() {
                assert(dec_seq(n)[i] == dec_seq(n / 10)[i]);
            }
        }
    }
}

fn digit_str(d: u64) -> (s: &'static str)
    requires
        d < 10,
    ensures
        s@ =~= seq![digit_char(d as nat)],
{
    proof {
        reveal_strlit("0");
        reveal_strlit("1");
        reveal_strlit("2");
        reveal_strlit("3");
        reveal_strlit("4");
        reveal_strlit("5");
        reveal_strlit("6");
        reveal_strlit("7");
        reveal_strlit("8");
        reveal_strlit("9");
    }
    if d == 0 {
        "0"
    } else if d == 1 {
        "1"
    } else if d == 2 {
        "2"
    } else if d == 3 {
        "3"
    } else if d == 4 {
        "4"
    } else if d == 5 {
        "5"
    } else if d == 6 {
        "6"
    } else if d == 7 {
        "7"
    } else if d == 8 {
        "8"
    } else {
        "9"
    }
}

/// Render a request id in decimal.
pub fn u64_to_dec(n: u64) -> (s: String)
    ensures
        s@ == dec_seq(n as nat),
    decreases n,
{
    if n < 10 {
        String::from_str(digit_str(n))
    } else {
        let mut s = u64_to_dec(n / 10);
        s.append(digit_str(n % 10));
        proof {
            assert(s@ =~= dec_seq((n / 10) as nat).push(digit_char((n % 10) as nat)));
        }
        s
    }
}

/// The exact text of one JSON-RPC 2.0 request, without the trailing newline:
/// `{"jsonrpc":"2.0","id":<id>,"method":"<method>","params":<params>}`.
pub open spec fn request_text(id: u64, method: Seq<char>, params: Seq<char>) -> Seq<char> {
    "{\"jsonrpc\":\"2.0\",\"id\":"@ + dec_seq(id as nat) + ",\"method\":\""@ + method
        + "\",\"params\":"@ + params + "}"@
}

/// Assemble one request line: the envelope text of `request_text` followed
/// by the single newline that frames it.
pub fn encode_request(id: u64, method: &str, params: &str) -> (line: String)
    ensures
        line@ == request_text(id, method@, params@) + "\n"@,
{
    let mut s = String::from_str("{\"jsonrpc\":\"2.0\",\"id\":");
    let ds = u64_to_dec(id);
    s.append(ds.as_str());
    s.append(",\"method\":\"");
    s.append(method);
    s.append("\",\"params\":");
    s.append(params);
    s.append("}");
    s.append("\n");
    proof {
        assert(s@ =~= request_text(id, method@, params@) + "\n"@);
    }
    s
}

/// Framing is sound: when neither the method nor the params text contains a
/// newline, the newline that `encode_request` appends is the only one on the
/// line, so one request occupies exactly one line.
pub proof fn lemma_one_request_one_line(id: u64, method: Seq<char>, params: Seq<char>)
    requires
        forall|i: int| 0 <= i < method.len() ==> method[i] != '\n',
        forall|i: int| 0 <= i < params.len() ==> params[i] != '\n',
    ensures
        forall|i: int|
            0 <= i < request_text(id, method, params).len()
                ==> #[trigger] request_text(id, method, params)[i] != '\n',
{
    reveal_strlit("{\"jsonrpc\":\"2.0\",\"id\":");
    reveal_strlit(",\"method\":\"");
    reveal_strlit("\",\"params\":");
    reveal_strlit("}");
    lemma_dec_seq_digits(id as nat);
    let t = request_text(id, method, params);
    let a = "{\"jsonrpc\":\"2.0\",\"id\":"@;
    let b = dec_seq(id as nat);
    let c = ",\"method\":\""@;
    let d = "\",\"params\":"@;
    let e = "}"@;
    assert forall|i: int| 0 <= i < t.len() implies #[trigger] t[i] != '\n' by {
        let n1 = a.len();
        let n2 = n1 + b.len();
        let n3 = n2 + c.len();
        let n4 = n3 + method.len();
        let n5 = n4 + d.len();
        let n6 = n5 + params.len();
        if i < n1 {
            assert(t[i] == a[i]);
        } else if i < n2 {
            assert(t[i] == b[i - n1]);
        } else if i < n3 {
            assert(t[i] == c[i - n2]);
        } else if i < n4 {
            assert(t[i] == method[i - n3]);
        } else if i < n5 {
            assert(t[i] == d[i - n4]);
        } else if i < n6 {
            assert(t[i] == params[i - n5]);
        } else {
            assert(t[i] == e[i - n6]);
        }
    }
}

/// The text is exactly one newline-framed line: nonempty, ends with the
/// newline, and contains no other newline.
pub open spec fn one_line(t: Seq<char>) -> bool {
    &&& t.len() > 0
    &&& t[t.len() - 1] == '\n'
    &&& forall|i: int| 0 <= i < t.len() - 1 ==> t[i] != '\n'
}

/// A framed request is exactly one line whenever its method and params
/// texts are newline-free.
pub proof fn lemma_framed_line(id: u64, method: Seq<char>, params: Seq<char>)
    requires
        forall|i: int| 0 <= i < method.len() ==> method[i] != '\n',
        forall|i: int| 0 <= i < params.len() ==> params[i] != '\n',
    ensures
        one_line(request_text(id, method, params) + "\n"@),
{
    reveal_strlit("\n");
    lemma_one_request_one_line(id, method, params);
    let t = request_text(id, method, params);
    let f = t + "\n"@;
    assert(f.len() == t.len() + 1);
    assert(f[f.len() - 1] == '\n');
    assert forall|i: int| 0 <= i < f.len() - 1 implies f[i] != '\n' by {
        assert(f[i] == t[i]);
    }
}

} // verus!
