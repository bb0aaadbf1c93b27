//! Spelling of names in NAMESPACE directives.
use crate::r_syntax::{is_syntactic_ascii_name, syntactic_name};
use crate::text::{char_vec, control, is_control};
use vstd::prelude::*;

verus! {

/// An upper-case hexadecimal digit.
pub open spec fn hex_upper(n: int) -> char {
    if n == 0 { '0' } else if n == 1 { '1' } else if n == 2 { '2' } else if n == 3 { '3' }
    else if n == 4 { '4' } else if n == 5 { '5' } else if n == 6 { '6' } else if n == 7 { '7' }
    else if n == 8 { '8' } else if n == 9 { '9' } else if n == 10 { 'A' } else if n == 11 { 'B' }
    else if n == 12 { 'C' } else if n == 13 { 'D' } else if n == 14 { 'E' } else { 'F' }
}

/// One character inside a double-quoted R string.
pub open spec fn escape_char(c: char) -> Seq<char> {
    if c == '"' {
        seq!['\\', '"']
    } else if c == '\\' {
        seq!['\\', '\\']
    } else if c == '\n' {
        seq!['\\', 'n']
    } else if c == '\r' {
        seq!['\\', 'r']
    } else if c == '\t' {
        seq!['\\', 't']
    } else if is_control(c) {
        seq!['\\', 'x', hex_upper((c as u32) as int / 16), hex_upper((c as u32) as int % 16)]
    } else {
        seq![c]
    }
}

/// The characters of a name inside a double-quoted R string.
pub open spec fn escaped(name: Seq<char>) -> Seq<char>
    decreases name.len(),
{
    if name.len() == 0 {
        Seq::empty()
    } else {
        escaped(name.drop_last()) + escape_char(name.last())
    }
}

/// A name as a NAMESPACE argument: bare when it is a conservative ASCII
/// syntactic name, else a double-quoted R string.
pub open spec fn quoted(name: Seq<char>) -> Seq<char> {
    if syntactic_name(name) {
        name
    } else {
        seq!['"'] + escaped(name) + seq!['"']
    }
}

/// Writes a hexadecimal digit.
fn hex_digit(n: u32) -> (r: char)
    requires
        n < 16,
    ensures
        r == hex_upper(n as int),
{
    match n {
        0 => '0',
        1 => '1',
        2 => '2',
        3 => '3',
        4 => '4',
        5 => '5',
        6 => '6',
        7 => '7',
        8 => '8',
        9 => '9',
        10 => 'A',
        11 => 'B',
        12 => 'C',
        13 => 'D',
        14 => 'E',
        _ => 'F',
    }
}

/// The code of a control character takes two hexadecimal digits.
proof fn low_code(c: char)
    requires
        is_control(c),
    ensures
        c as u32 <= 0x9f,
        c as u32 == c as int,
{
}

/// Uses double-quoted R strings for every name that is not a conservative
/// ASCII syntactic name. This follows roxygen2's `auto_quote` convention and
/// makes operators, replacement functions, non-ASCII names, and malformed
/// bare-name positions unambiguous. Quotes and backslashes are escaped here.
pub fn quote_name(name: &str) -> (r: String)
    ensures
        r@ == quoted(name@),
{
    if is_syntactic_ascii_name(name) {
        return name.to_owned();
    }
    let chars = char_vec(name);
    let mut out: String = String::new();
    out.push('"');
    proof {
        assert(out@ =~= seq!['"'] + escaped(chars@.take(0)));
    }
    let mut i: usize = 0;
    while i < chars.len()
        invariant
            i <= chars@.len(),
            out@ == seq!['"'] + escaped(chars@.take(i as int)),
        decreases chars@.len() - i,
    {
        let c: char = chars[i];
        let ghost before = out@;
        proof {
            let prefix = chars@.take(i + 1);
            assert(prefix.drop_last() =~= chars@.take(i as int));
            assert(prefix.last() == c);
        }
        if c == '"' {
            out.push_str("\\\"");
            proof {
                reveal_strlit("\\\"");
            }
        } else if c == '\\' {
            out.push_str("\\\\");
            proof {
                reveal_strlit("\\\\");
            }
        } else if c == '\n' {
            out.push_str("\\n");
            proof {
                reveal_strlit("\\n");
            }
        } else if c == '\r' {
            out.push_str("\\r");
            proof {
                reveal_strlit("\\r");
            }
        } else if c == '\t' {
            out.push_str("\\t");
            proof {
                reveal_strlit("\\t");
            }
        } else if control(c) {
            proof {
                low_code(c);
            }
            let code: u32 = c as u32;
            out.push_str("\\x");
            proof {
                reveal_strlit("\\x");
            }
            out.push(hex_digit(code / 16));
            out.push(hex_digit(code % 16));
        } else {
            out.push(c);
        }
        proof {
            assert(out@ =~= before + escape_char(c));
            assert(out@ =~= seq!['"'] + escaped(chars@.take(i + 1)));
        }
        i = i + 1;
    }
    out.push('"');
    proof {
        assert(chars@.take(chars@.len() as int) =~= chars@);
        assert(out@ =~= quoted(name@));
    }
    out
}

/// An escaped name begins with its first character escaped.
proof fn escaped_front(name: Seq<char>)
    requires
        name.len() > 0,
    ensures
        escaped(name) == escape_char(name[0]) + escaped(name.drop_first()),
    decreases name.len(),
{
    if name.len() == 1 {
        assert(name.drop_first() =~= Seq::<char>::empty());
        assert(name.drop_last() =~= Seq::<char>::empty());
        assert(escaped(name) =~= escape_char(name[0]) + escaped(name.drop_first()));
    } else {
        escaped_front(name.drop_last());
        assert(name.drop_last().drop_first() =~= name.drop_first().drop_last());
        assert(escaped(name) =~= escape_char(name[0]) + escaped(name.drop_first()));
    }
}

proof fn hex_upper_injective(a: int, b: int)
    requires
        0 <= a < 16,
        0 <= b < 16,
        hex_upper(a) == hex_upper(b),
    ensures
        a == b,
{
}

/// No escaped character is the beginning of another one.
proof fn escape_is_prefix_free(a: char, b: char, x: Seq<char>, y: Seq<char>)
    requires
        escape_char(a) + x == escape_char(b) + y,
    ensures
        a == b,
        x == y,
{
    let left = escape_char(a) + x;
    let right = escape_char(b) + y;
    assert(left[0] == escape_char(a)[0] && right[0] == escape_char(b)[0]);
    if escape_char(a).len() > 1 && escape_char(b).len() > 1 {
        assert(left[1] == escape_char(a)[1] && right[1] == escape_char(b)[1]);
    }
    if escape_char(a).len() == 4 && escape_char(b).len() == 4 {
        assert(left[2] == escape_char(a)[2] && right[2] == escape_char(b)[2]);
        assert(left[3] == escape_char(a)[3] && right[3] == escape_char(b)[3]);
        let m = (a as u32) as int;
        let n = (b as u32) as int;
        hex_upper_injective(m / 16, n / 16);
        hex_upper_injective(m % 16, n % 16);
        assert(m == n);
    }
    assert(a == b);
    let k = escape_char(a).len() as int;
    assert(x =~= left.skip(k));
    assert(y =~= right.skip(k));
}

/// Escaping loses nothing.
pub proof fn escaped_injective(a: Seq<char>, b: Seq<char>)
    requires
        escaped(a) == escaped(b),
    ensures
        a == b,
    decreases a.len(),
{
    if a.len() == 0 && b.len() == 0 {
        assert(a =~= b);
    } else if a.len() == 0 {
        assert(escape_char(b.last()).len() > 0);
        assert(escaped(b).len() > 0);
    } else if b.len() == 0 {
        assert(escape_char(a.last()).len() > 0);
        assert(escaped(a).len() > 0);
    } else {
        escaped_front(a);
        escaped_front(b);
        escape_is_prefix_free(a[0], b[0], escaped(a.drop_first()), escaped(b.drop_first()));
        escaped_injective(a.drop_first(), b.drop_first());
        assert(a =~= seq![a[0]] + a.drop_first());
        assert(b =~= seq![b[0]] + b.drop_first());
    }
}

/// Distinct names have distinct spellings.
pub proof fn quoted_injective(a: Seq<char>, b: Seq<char>)
    requires
        quoted(a) == quoted(b),
    ensures
        a == b,
{
    if syntactic_name(a) != syntactic_name(b) {
        if syntactic_name(a) {
            assert(quoted(b)[0] == '"');
        } else {
            assert(quoted(a)[0] == '"');
        }
    } else if !syntactic_name(a) {
        let x = quoted(a);
        let y = quoted(b);
        assert(escaped(a) =~= x.subrange(1, x.len() - 1));
        assert(escaped(b) =~= y.subrange(1, y.len() - 1));
        escaped_injective(a, b);
    }
}

/// A quoted spelling never holds a raw line break, so that every directive
/// argument stays on its line.
pub proof fn quoted_stays_on_one_line(name: Seq<char>)
    ensures
        !quoted(name).contains('\n'),
        !quoted(name).contains('\r'),
{
    if syntactic_name(name) {
        assert forall|i: int| 0 <= i < name.len() implies name[i] != '\n' && name[i] != '\r' by {}
    } else {
        escaped_stays_on_one_line(name);
    }
}

proof fn escaped_stays_on_one_line(name: Seq<char>)
    ensures
        !escaped(name).contains('\n'),
        !escaped(name).contains('\r'),
    decreases name.len(),
{
    if name.len() > 0 {
        escaped_stays_on_one_line(name.drop_last());
        let e = escape_char(name.last());
        let before = escaped(name.drop_last());
        assert forall|i: int| 0 <= i < escaped(name).len() implies escaped(name)[i] != '\n'
            && escaped(name)[i] != '\r' by {
            if i < before.len() {
                assert(escaped(name)[i] == before[i]);
                assert(before.contains(before[i]));
            } else {
                assert(escaped(name)[i] == e[i - before.len()]);
            }
        }
    }
}

} // verus!
