//! Decimal rendering of session ids and list formatting.

use vstd::prelude::*;

verus! {

/// The character for a single decimal digit.
pub open spec fn digit_char(d: nat) -> char {
    if d == 0 {
        '0'
    } else if d == 1 {
        '1'
    } else if d == 2 {
        '2'
    } else if d == 3 {
        '3'
    } else if d == 4 {
        '4'
    } else if d == 5 {
        '5'
    } else if d == 6 {
        '6'
    } else if d == 7 {
        '7'
    } else if d == 8 {
        '8'
    } else {
        '9'
    }
}

/// The decimal digit string of `n`, most significant digit first,
/// with no leading zeros (a single `'0'` for zero).
pub open spec fn dec_digits(n: nat) -> Seq<char>
    decreases n,
{
    if n < 10 {
        seq![digit_char(n)]
    } else {
        dec_digits(n / 10).push(digit_char(n % 10))
    }
}

fn digit_str(d: u64) -> (s: &'static str)
    requires
        d < 10,
    ensures
        s@ == seq![digit_char(d as nat)],
{
    proof {
        reveal_strlit("0");
        reveal_strlit("1");
        reveal_strlit("2");
        reveal_strlit("3");
        reveal_strlit("4");
        reveal_strlit("5");
        reveal_strlit("6");
        reveal_strlit("7");
        reveal_strlit("8");
        reveal_strlit("9");
    }
    if d == 0 {
        "0"
    } else if d == 1 {
        "1"
    } else if d == 2 {
        "2"
    } else if d == 3 {
        "3"
    } else if d == 4 {
        "4"
    } else if d == 5 {
        "5"
    } else if d == 6 {
        "6"
    } else if d == 7 {
        "7"
    } else if d == 8 {
        "8"
    } else {
        "9"
    }
}

/// Renders `n` in decimal, as the registry and the reports display ids.
pub fn u64_to_string(n: u64) -> (s: String)
    ensures
        s@ == dec_digits(n as nat),
    decreases n,
{
    if n < 10 {
        digit_str(n).to_owned()
    } else {
        let mut s = u64_to_string(n / 10);
        s.append(digit_str(n % 10));
        s
    }
}

/// The items of a formatted list, one dashed line each, in order.
pub open spec fn list_items_spec(items: Seq<Seq<char>>) -> Seq<char>
    decreases items.len(),
{
    if items.len() == 0 {
        Seq::empty()
    } else {
        list_items_spec(items.drop_last()) + "- "@ + items.last() + "\n"@
    }
}

/// A titled, dashed list.
pub open spec fn format_list_spec(name: Seq<char>, items: Seq<Seq<char>>) -> Seq<char> {
    "List of "@ + name + ":\n"@ + list_items_spec(items)
}

/// Renders a titled list: `List of <name>:` followed by one dashed
/// line per item, in order.
pub fn format_list(name: &str, items: &Vec<String>) -> (s: String)
    ensures
        s@ == format_list_spec(name@, items@.map_values(|x: String| x@)),
{
    let ghost views = items@.map_values(|x: String| x@);
    let mut s = String::new();
    proof {
        assert(s@ =~= Seq::<char>::empty());
    }
    s.append("List of ");
    s.append(name);
    s.append(":\n");
    let ghost head = s@;
    assert(head =~= "List of "@ + name@ + ":\n"@);
    let mut i: usize = 0;
    while i < items.len()
        invariant
            i <= items@.len(),
            views == items@.map_values(|x: String| x@),
            head == "List of "@ + name@ + ":\n"@,
            s@ == head + list_items_spec(views.take(i as int)),
        decreases items@.len() - i,
    {
        s.append("- ");
        s.append(items[i].as_str());
        s.append("\n");
        proof {
            assert(views.take(i + 1).drop_last() =~= views.take(i as int));
            assert(views.take(i + 1).last() == views[i as int]);
            assert(s@ =~= head + list_items_spec(views.take(i + 1)));
        }
        i += 1;
    }
    proof {
        assert(views.take(views.len() as int) =~= views);
    }
    s
}

/// The platform markup for a timestamp rendered as a relative time
/// ("expires in ...").
pub open spec fn relative_time_markup_spec(ts: nat) -> Seq<char> {
    "<t:"@ + dec_digits(ts) + ":R>"@
}

/// The platform markup for a timestamp rendered as a full date.
pub open spec fn full_time_markup_spec(ts: nat) -> Seq<char> {
    "<t:"@ + dec_digits(ts) + ":f>"@
}

pub fn relative_time_markup(ts: u64) -> (s: String)
    ensures
        s@ == relative_time_markup_spec(ts as nat),
{
    let mut s = String::new();
    proof {
        assert(s@ =~= Seq::<char>::empty());
    }
    s.append("<t:");
    let digits = u64_to_string(ts);
    s.append(digits.as_str());
    s.append(":R>");
    proof {
        assert(s@ =~= relative_time_markup_spec(ts as nat));
    }
    s
}

pub fn full_time_markup(ts: u64) -> (s: String)
    ensures
        s@ == full_time_markup_spec(ts as nat),
{
    let mut s = String::new();
    proof {
        assert(s@ =~= Seq::<char>::empty());
    }
    s.append("<t:");
    let digits = u64_to_string(ts);
    s.append(digits.as_str());
    s.append(":f>");
    proof {
        assert(s@ =~= full_time_markup_spec(ts as nat));
    }
    s
}

/// The absolute timestamp at which a session created at `created`
/// with an allowed lifetime of `timeout` seconds expires.
pub fn expiry_timestamp(created: u64, timeout: u64) -> (ts: u64)
    requires
        created + timeout <= u64::MAX,
    ensures
        ts == created + timeout,
{
    created + timeout
}

/// The offset, from the creation instant, of the deadline the read
/// race waits for: one second short of the allowed lifetime, so the
/// surface flips to "expired" before the platform's relative clock
/// reaches zero.
pub fn deadline_offset_secs(timeout: u64) -> (off: u64)
    requires
        timeout >= 1,
    ensures
        off == timeout - 1,
{
    timeout - 1
}

} // verus!
