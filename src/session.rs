use vstd::prelude::*;

verus! {

/// The `Cookie` header value for a list of `(name, value)` cookies: `name=value;` for each,
/// in order.
pub open spec fn cookie_header_of(cookies: Seq<(String, String)>) -> Seq<char>
    decreases cookies.len(),
{
    if cookies.len() == 0 {
        Seq::empty()
    } else {
        let last = cookies.last();
        cookie_header_of(cookies.drop_last()) + last.0@ + seq!['='] + last.1@ + seq![';']
    }
}

/// Builds the `Cookie` header value for a session (see `cookie_header_of`).
pub fn cookie_header(cookies: &Vec<(String, String)>) -> (r: String)
    ensures
        r@ == cookie_header_of(cookies@),
{
    let mut s = String::new();
    let mut i: usize = 0;
    while i < cookies.len()
        invariant
            i <= cookies@.len(),
            s@ == cookie_header_of(cookies@.subrange(0, i as int)),
        decreases cookies@.len() - i,
    {
        proof {
            assert(cookies@.subrange(0, i + 1).drop_last() =~= cookies@.subrange(0, i as int));
        }
        s.append(cookies[i].0.as_str());
        s.append("=");
        s.append(cookies[i].1.as_str());
        s.append(";");
        proof {
            reveal_strlit("=");
            reveal_strlit(";");
            assert(s@ =~= cookie_header_of(cookies@.subrange(0, i + 1)));
        }
        i = i + 1;
    }
    proof {
        assert(cookies@.subrange(0, cookies@.len() as int) =~= cookies@);
    }
    s
}

} // verus!
