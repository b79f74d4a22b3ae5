use vstd::prelude::*;
use vstd::string::StringExecFns;
use crate::pinout::{BoardPin, PinKind, signal_name_spec};

verus! {

/// Appends one character to a string (`String::push`).
#[verifier::external_body]
fn push_char(s: &mut String, c: char)
    ensures
        final(s)@ == old(s)@.push(c),
{
    s.push(c)
}

/// The decimal digit for `d` (below 10).
pub open spec fn digit_char(d: int) -> char {
    if d == 0 {
        '0'
    } else if d == 1 {
        '1'
    } else if d == 2 {
        '2'
    } else if d == 3 {
        '3'
    } else if d == 4 {
        '4'
    } else if d == 5 {
        '5'
    } else if d == 6 {
        '6'
    } else if d == 7 {
        '7'
    } else if d == 8 {
        '8'
    } else {
        '9'
    }
}

/// The decimal digits of `n`, most significant first, without leading zeros.
pub open spec fn decimal(n: nat) -> Seq<char>
    decreases n,
{
    if n < 10 {
        seq![digit_char(n as int)]
    } else {
        decimal(n / 10).push(digit_char((n % 10) as int))
    }
}

/// `n` spaces.
pub open spec fn spaces(n: int) -> Seq<char> {
    Seq::new(if n > 0 {
        n as nat
    } else {
        0
    }, |i: int| ' ')
}

/// `s` right-aligned in a field of `width` characters (never cut).
pub open spec fn pad_left(s: Seq<char>, width: int) -> Seq<char> {
    spaces(width - s.len()) + s
}

/// `s` left-aligned in a field of `width` characters (never cut).
pub open spec fn pad_right(s: Seq<char>, width: int) -> Seq<char> {
    s + spaces(width - s.len())
}

/// `parts` joined with commas.
pub open spec fn comma_joined(parts: Seq<Seq<char>>) -> Seq<char>
    decreases parts.len(),
{
    if parts.len() == 0 {
        Seq::empty()
    } else if parts.len() == 1 {
        parts[0]
    } else {
        comma_joined(parts.drop_last()).push(',') + parts.last()
    }
}

/// The lower-case name of a pin kind.
pub open spec fn kind_name_spec(kind: PinKind) -> Seq<char> {
    match kind {
        PinKind::Digital => "digital"@,
        PinKind::Power => "power"@,
        PinKind::Ground => "ground"@,
        PinKind::NotConnected => "nc"@,
    }
}

/// One header cell of the pinout drawing: the number right-aligned in two columns, the
/// signal name in four and the kind in eight; blank for a missing pin.
pub open spec fn pin_cell_spec(pin: Option<BoardPin>) -> Seq<char> {
    match pin {
        Some(p) => pad_left(decimal(p.number as nat), 2) + seq![' '] + pad_right(
            signal_name_spec(p.signal),
            4,
        ) + seq![' '] + pad_right(kind_name_spec(p.kind), 8),
        None => spaces(18),
    }
}

/// One row of the pinout table: number (two columns, right-aligned), signal (four), kind
/// (seven), RJ45 pin or `-` (six), then the functions joined with commas.
pub open spec fn pin_row_spec(pin: BoardPin) -> Seq<char> {
    pad_left(decimal(pin.number as nat), 2) + seq![' '] + pad_right(signal_name_spec(pin.signal), 4)
        + seq![' '] + pad_right(kind_name_spec(pin.kind), 7) + seq![' '] + pad_right(
        match pin.rj_pin {
            Some(r) => r@,
            None => "-"@,
        },
        6,
    ) + seq![' '] + comma_joined(pin.functions@.map_values(|f: &'static str| f@))
}

fn digit(d: u8) -> (c: char)
    requires
        d < 10,
    ensures
        c == digit_char(d as int),
{
    match d {
        0 => '0',
        1 => '1',
        2 => '2',
        3 => '3',
        4 => '4',
        5 => '5',
        6 => '6',
        7 => '7',
        8 => '8',
        _ => '9',
    }
}

/// Appends the decimal digits of `n`.
fn push_decimal(s: &mut String, n: u8)
    ensures
        final(s)@ == old(s)@ + decimal(n as nat),
{
    if n >= 100 {
        let hundreds = n / 100;
        let tens = (n / 10) % 10;
        let ones = n % 10;
        push_char(s, digit(hundreds));
        push_char(s, digit(tens));
        push_char(s, digit(ones));
        assert((n / 10) / 10 == hundreds);
        assert(decimal(hundreds as nat) == seq![digit_char(hundreds as int)]);
        assert(decimal((n / 10) as nat) == decimal(hundreds as nat).push(digit_char(tens as int)));
        assert(decimal(n as nat) == decimal((n / 10) as nat).push(digit_char(ones as int)));
        assert(final(s)@ =~= old(s)@ + decimal(n as nat));
    } else if n >= 10 {
        let tens = n / 10;
        let ones = n % 10;
        push_char(s, digit(tens));
        push_char(s, digit(ones));
        assert(decimal(tens as nat) == seq![digit_char(tens as int)]);
        assert(decimal(n as nat) == decimal(tens as nat).push(digit_char(ones as int)));
        assert(final(s)@ =~= old(s)@ + decimal(n as nat));
    } else {
        push_char(s, digit(n));
        assert(final(s)@ =~= old(s)@ + decimal(n as nat));
    }
}

/// Appends `n` spaces.
fn push_spaces(s: &mut String, n: usize)
    ensures
        final(s)@ == old(s)@ + spaces(n as int),
{
    let mut i: usize = 0;
    while i < n
        invariant
            i <= n,
            s@ == old(s)@ + spaces(i as int),
        decreases n - i,
    {
        push_char(s, ' ');
        i += 1;
        assert(s@ =~= old(s)@ + spaces(i as int));
    }
}

/// The number of characters of a string slice.
fn char_count(t: &str) -> (n: usize)
    ensures
        n == t@.len(),
{
    t.unicode_len()
}

/// Appends `t` left-aligned in a field of `width` characters.
fn push_padded_right(s: &mut String, t: &str, width: usize)
    ensures
        final(s)@ == old(s)@ + pad_right(t@, width as int),
{
    s.append(t);
    let n = char_count(t);
    if n < width {
        push_spaces(s, width - n);
    } else {
        push_spaces(s, 0);
    }
    assert(final(s)@ =~= old(s)@ + pad_right(t@, width as int));
}

/// Appends the decimal digits of `n` right-aligned in two columns.
fn push_number_width2(s: &mut String, n: u8)
    ensures
        final(s)@ == old(s)@ + pad_left(decimal(n as nat), 2),
{
    if n < 10 {
        push_char(s, ' ');
    }
    push_decimal(s, n);
    assert(decimal((n / 10) as nat).len() >= 1);
    assert(final(s)@ =~= old(s)@ + pad_left(decimal(n as nat), 2));
}

/// The lower-case name of a pin kind.
pub fn kind_name(kind: PinKind) -> (name: &'static str)
    ensures
        name@ == kind_name_spec(kind),
{
    match kind {
        PinKind::Digital => "digital",
        PinKind::Power => "power",
        PinKind::Ground => "ground",
        PinKind::NotConnected => "nc",
    }
}

/// One header cell of the pinout drawing.
pub fn pin_cell(pin: Option<&BoardPin>) -> (cell: String)
    ensures
        cell@ == pin_cell_spec(
            match pin {
                Some(p) => Some(*p),
                None => None,
            },
        ),
{
    match pin {
        Some(pin) => {
            let mut cell = String::new();
            push_number_width2(&mut cell, pin.number);
            push_char(&mut cell, ' ');
            push_padded_right(&mut cell, pin.signal.name(), 4);
            push_char(&mut cell, ' ');
            push_padded_right(&mut cell, kind_name(pin.kind), 8);
            assert(cell@ =~= pin_cell_spec(Some(*pin)));
            cell
        },
        None => {
            let mut cell = String::new();
            push_spaces(&mut cell, 18);
            assert(cell@ =~= spaces(18));
            cell
        },
    }
}

/// The functions of a pin joined with commas.
pub fn join_functions(functions: &[&str]) -> (joined: String)
    ensures
        joined@ == comma_joined(functions@.map_values(|f: &str| f@)),
{
    let mut output = String::new();
    let mut index: usize = 0;
    while index < functions.len()
        invariant
            index <= functions@.len(),
            output@ == comma_joined(functions@.subrange(0, index as int).map_values(|f: &str| f@)),
        decreases functions.len() - index,
    {
        let ghost before = functions@.subrange(0, index as int).map_values(|f: &str| f@);
        if index > 0 {
            push_char(&mut output, ',');
        }
        output.append(functions[index]);
        index += 1;
        let ghost after = functions@.subrange(0, index as int).map_values(|f: &str| f@);
        assert(after.drop_last() =~= before);
        assert(output@ =~= comma_joined(after));
    }
    assert(functions@.subrange(0, index as int) =~= functions@);
    output
}

/// One row of the pinout table.
pub fn pin_row(pin: &BoardPin) -> (row: String)
    ensures
        row@ == pin_row_spec(*pin),
{
    let mut row = String::new();
    push_number_width2(&mut row, pin.number);
    push_char(&mut row, ' ');
    push_padded_right(&mut row, pin.signal.name(), 4);
    push_char(&mut row, ' ');
    push_padded_right(&mut row, kind_name(pin.kind), 7);
    push_char(&mut row, ' ');
    let rj = match pin.rj_pin {
        Some(r) => r,
        None => "-",
    };
    push_padded_right(&mut row, rj, 6);
    push_char(&mut row, ' ');
    let functions = join_functions(pin.functions);
    row.append(functions.as_str());
    assert(row@ =~= pin_row_spec(*pin));
    row
}

} // verus!
