use vstd::prelude::*;
use vstd::string::StrSliceExecFns;
use vstd::string::StringExecFns;

verus! {

/// The characters of `parts` laid end to end with `sep` between
/// consecutive parts.
pub open spec fn spec_join(parts: Seq<String>, sep: Seq<char>) -> Seq<char>
    decreases parts.len(),
{
    if parts.len() == 0 {
        Seq::empty()
    } else if parts.len() == 1 {
        parts[0]@
    } else {
        spec_join(parts.drop_last(), sep) + sep + parts.last()@
    }
}

/// Joins strings with `", "` between them, as the genre lists are
/// rendered in the output rows.
pub fn join_comma_space(parts: &Vec<String>) -> (r: String)
    ensures
        r@ == spec_join(parts@, ", "@),
{
    let mut r = String::new();
    let mut i: usize = 0;
    while i < parts.len()
        invariant
            i <= parts@.len(),
            r@ == spec_join(parts@.take(i as int), ", "@),
        decreases parts@.len() - i,
    {
        if i > 0 {
            r.append(", ");
        }
        r.append(parts[i].as_str());
        proof {
            let taken = parts@.take(i + 1);
            assert(taken.drop_last() =~= parts@.take(i as int));
            assert(taken.last() == parts@[i as int]);
        }
        i = i + 1;
    }
    proof {
        assert(parts@.take(parts@.len() as int) =~= parts@);
    }
    r
}

/// Joins strings with `","` between them, as bulk-endpoint id lists
/// are rendered into a URL.
pub fn join_comma(parts: &Vec<String>) -> (r: String)
    ensures
        r@ == spec_join(parts@, ","@),
{
    let mut r = String::new();
    let mut i: usize = 0;
    while i < parts.len()
        invariant
            i <= parts@.len(),
            r@ == spec_join(parts@.take(i as int), ","@),
        decreases parts@.len() - i,
    {
        if i > 0 {
            r.append(",");
        }
        r.append(parts[i].as_str());
        proof {
            let taken = parts@.take(i + 1);
            assert(taken.drop_last() =~= parts@.take(i as int));
            assert(taken.last() == parts@[i as int]);
        }
        i = i + 1;
    }
    proof {
        assert(parts@.take(parts@.len() as int) =~= parts@);
    }
    r
}

/// A query string with every space replaced by `%20` and every other
/// character kept; no other character is escaped.
pub open spec fn spec_encode_query(s: Seq<char>) -> Seq<char>
    decreases s.len(),
{
    if s.len() == 0 {
        Seq::empty()
    } else {
        spec_encode_query(s.drop_last()) + (if s.last() == ' ' {
            "%20"@
        } else {
            seq![s.last()]
        })
    }
}

/// Percent-encodes spaces (and only spaces) in a search query.
pub fn encode_query(s: &str) -> (r: String)
    ensures
        r@ == spec_encode_query(s@),
{
    let n = s.unicode_len();
    let mut r = String::new();
    let mut i: usize = 0;
    while i < n
        invariant
            n == s@.len(),
            i <= n,
            r@ == spec_encode_query(s@.take(i as int)),
        decreases n - i,
    {
        let c = s.get_char(i);
        if c == ' ' {
            r.append("%20");
        } else {
            let piece = s.substring_char(i, i + 1);
            r.append(piece);
        }
        proof {
            let taken = s@.take(i + 1);
            assert(taken.drop_last() =~= s@.take(i as int));
            assert(taken.last() == s@[i as int]);
            if s@[i as int] != ' ' {
                assert(s@.subrange(i as int, i + 1) =~= seq![s@[i as int]]);
            }
        }
        i = i + 1;
    }
    proof {
        assert(s@.take(s@.len() as int) =~= s@);
    }
    r
}

} // verus!
