use vstd::prelude::*;

verus! {

/// The items of `items`, separated by commas.
pub open spec fn join_commas(items: Seq<Seq<char>>) -> Seq<char>
    decreases items.len(),
{
    if items.len() == 0 {
        Seq::empty()
    } else if items.len() == 1 {
        items[0]
    } else {
        join_commas(items.drop_last()) + seq![','] + items.last()
    }
}

/// The text of each string of `vals`.
pub open spec fn texts(vals: Seq<String>) -> Seq<Seq<char>> {
    vals.map_values(|s: String| s@)
}

/// Relies on `String::push_str`: it appends `t` to the end of `s`.
#[verifier::external_body]
fn push_text(s: &mut String, t: &str)
    ensures
        final(s)@ == old(s)@ + t@,
{
    s.push_str(t);
}

/// Renders already formatted values as a graphing-calculator list literal:
/// `\left[` then the values separated by commas, then `\right]`.
pub fn to_desmos_array(vals: &Vec<String>) -> (r: String)
    ensures
        r@ == "\\left["@ + join_commas(texts(vals@)) + "\\right]"@,
{
    let mut r = "\\left[".to_owned();
    let mut i: usize = 0;
    while i < vals.len()
        invariant
            i <= vals@.len(),
            r@ == "\\left["@ + join_commas(texts(vals@.take(i as int))),
        decreases vals@.len() - i,
    {
        proof {
            let t = texts(vals@.take(i as int + 1));
            assert(t.drop_last() =~= texts(vals@.take(i as int)));
            assert(t.last() == vals@[i as int]@);
        }
        if i > 0 {
            push_text(&mut r, ",");
            proof {
                reveal_strlit(",");
            }
        }
        push_text(&mut r, vals[i].as_str());
        i = i + 1;
    }
    proof {
        assert(vals@.take(i as int) =~= vals@);
    }
    push_text(&mut r, "\\right]");
    r
}

} // verus!
