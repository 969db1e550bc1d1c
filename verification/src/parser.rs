//! The order-command parser: reads the XML-shaped datagrams the clients
//! send, including the monetary penalty amounts, into plain order records.

use vstd::prelude::*;
use vstd::string::StrSliceExecFns;
use vstd::string::StringExecFns;

use crate::numbers::{int_val, parse_i32, parse_i64, push_char, valid_int_str};
use crate::orders::ClientOrder;
use crate::pieces::FinalPiece;

verus! {

/// Why a monetary amount was rejected.
#[derive(Clone, Copy, Debug, PartialEq, Eq, Structural)]
pub enum MoneyParseError {
    /// Neither `,` nor `.` separates euros from cents.
    InvalidSeparator,
    /// The cents part has neither one nor two digits.
    InvalidCents,
    /// A part is not a well-formed number.
    InvalidNumber,
    /// The amount does not fit in 64-bit cents.
    Overflow,
}

/// The index of the first occurrence of a character, or `-1`.
pub open spec fn first_sep(s: Seq<char>, c: char) -> int
    decreases s.len(),
{
    if s.len() == 0 {
        -1
    } else if s[0] == c {
        0
    } else {
        let r = first_sep(s.drop_first(), c);
        if r < 0 {
            -1
        } else {
            r + 1
        }
    }
}

/// Splitting at the first `,`, or else at the first `.`, as euros and
/// cents; `None` when neither occurs.
pub open spec fn spec_split_money(s: Seq<char>) -> Option<(Seq<char>, Seq<char>)> {
    let ci = first_sep(s, ',');
    let di = first_sep(s, '.');
    if ci >= 0 {
        Some((s.take(ci), s.skip(ci + 1)))
    } else if di >= 0 {
        Some((s.take(di), s.skip(di + 1)))
    } else {
        None
    }
}

/// The amount named by a euros-and-cents string: euros and cents split at
/// the first `,` (or else `.`), one cent digit meaning tens of cents, the
/// whole converted to cents.
pub open spec fn spec_parse_euros_and_cents(s: Seq<char>) -> Result<i64, MoneyParseError> {
    match spec_split_money(s) {
        None => Err(MoneyParseError::InvalidSeparator),
        Some((es, cs)) => {
            if cs.len() != 1 && cs.len() != 2 {
                Err(MoneyParseError::InvalidCents)
            } else if !(valid_int_str(cs) && i64::MIN <= int_val(cs) <= i64::MAX) {
                Err(MoneyParseError::InvalidNumber)
            } else {
                let cents = int_val(cs) * (if cs.len() == 1 {
                    10int
                } else {
                    1int
                });
                if !(valid_int_str(es) && i64::MIN <= int_val(es) <= i64::MAX) {
                    Err(MoneyParseError::InvalidNumber)
                } else if !(i64::MIN <= int_val(es) * 100 <= i64::MAX) {
                    Err(MoneyParseError::Overflow)
                } else if !(i64::MIN <= int_val(es) * 100 + cents <= i64::MAX) {
                    Err(MoneyParseError::Overflow)
                } else {
                    Ok((int_val(es) * 100 + cents) as i64)
                }
            }
        },
    }
}

/// A valid signed decimal string of at most two characters names a value
/// between -9 and 99.
proof fn lemma_short_int_bounds(s: Seq<char>)
    requires
        valid_int_str(s),
        1 <= s.len() <= 2,
    ensures
        -9 <= int_val(s) <= 99,
{
    assert(crate::numbers::uint_val(Seq::<char>::empty()) == 0);
    if s[0] == '+' || s[0] == '-' {
        let d = s.drop_first();
        assert(d.len() == 1);
        assert(d.drop_last() =~= Seq::<char>::empty());
        assert(crate::numbers::is_digit(d[0]));
        assert(d.last() == d[0]);
        assert(crate::numbers::uint_val(d) == crate::numbers::digit_val(d[0]));
        assert(0 <= crate::numbers::digit_val(d[0]) <= 9);
        assert(int_val(s) == if s[0] == '-' {
            -crate::numbers::uint_val(d)
        } else {
            crate::numbers::uint_val(d)
        });
    } else {
        assert(int_val(s) == crate::numbers::uint_val(s));
        if s.len() == 1 {
            assert(s.drop_last() =~= Seq::<char>::empty());
            assert(crate::numbers::is_digit(s[0]));
            assert(s.last() == s[0]);
            assert(crate::numbers::uint_val(s) == crate::numbers::digit_val(s[0]));
            assert(0 <= crate::numbers::digit_val(s[0]) <= 9);
        } else {
            assert(s.drop_last().len() == 1);
            assert(s.drop_last().drop_last() =~= Seq::<char>::empty());
            assert(crate::numbers::is_digit(s[0]));
            assert(crate::numbers::is_digit(s[1]));
            assert(s.drop_last()[0] == s[0]);
            assert(s.drop_last().last() == s[0]);
            assert(s.last() == s[1]);
            assert(crate::numbers::uint_val(s.drop_last()) == crate::numbers::digit_val(s[0]));
            assert(crate::numbers::uint_val(s) == crate::numbers::digit_val(s[0]) * 10
                + crate::numbers::digit_val(s[1]));
            assert(0 <= crate::numbers::digit_val(s[0]) <= 9);
            assert(0 <= crate::numbers::digit_val(s[1]) <= 9);
        }
    }
}

/// The index of the first occurrence of a character, scanned from the
/// front.
pub(crate) fn find_char(s: &str, c: char) -> (r: Option<usize>)
    ensures
        match r {
            Some(j) => j == first_sep(s@, c) && j < s@.len(),
            None => first_sep(s@, c) == -1,
        },
{
    let len = s.unicode_len();
    let mut i: usize = 0;
    proof {
        assert(s@.skip(0) =~= s@);
    }
    while i < len
        invariant
            0 <= i <= len,
            len == s@.len(),
            first_sep(s@, c) == if first_sep(s@.skip(i as int), c) < 0 {
                -1int
            } else {
                first_sep(s@.skip(i as int), c) + i
            },
            forall|j: int| 0 <= j < i ==> s@[j] != c,
        decreases len - i,
    {
        let ch = s.get_char(i);
        proof {
            assert(s@.skip(i as int)[0] == s@[i as int]);
            assert(s@.skip(i as int).drop_first() =~= s@.skip(i as int + 1));
        }
        if ch == c {
            proof {
                assert(first_sep(s@.skip(i as int), c) == 0);
            }
            return Some(i);
        }
        i += 1;
    }
    proof {
        assert(s@.skip(len as int) =~= Seq::<char>::empty());
    }
    None
}

/// Reads a euros-and-cents amount (for example `10,50` or `3.5`) into
/// cents: the part after the first `,` or `.` is cents (one digit meaning
/// tens of cents), the part before is whole euros.
pub fn parse_euros_and_cents(input: &str) -> (r: Result<i64, MoneyParseError>)
    ensures
        r == spec_parse_euros_and_cents(input@),
{
    let len = input.unicode_len();
    let sep = match find_char(input, ',') {
        Some(j) => j,
        None => match find_char(input, '.') {
            Some(j) => j,
            None => {
                return Err(MoneyParseError::InvalidSeparator);
            },
        },
    };
    let euros_str = input.substring_char(0, sep);
    let cents_str = input.substring_char(sep + 1, len);
    proof {
        assert(euros_str@ =~= input@.take(sep as int));
        assert(cents_str@ =~= input@.skip(sep as int + 1));
    }
    let cents_len = cents_str.unicode_len();
    if cents_len != 1 && cents_len != 2 {
        return Err(MoneyParseError::InvalidCents);
    }
    let cents_raw = match parse_i64(cents_str) {
        Some(v) => v,
        None => {
            return Err(MoneyParseError::InvalidNumber);
        },
    };
    proof {
        lemma_short_int_bounds(cents_str@);
    }
    let cents = if cents_len == 1 {
        cents_raw * 10
    } else {
        cents_raw
    };
    let euros = match parse_i64(euros_str) {
        Some(v) => v,
        None => {
            return Err(MoneyParseError::InvalidNumber);
        },
    };
    let euro_cents = match euros.checked_mul(100) {
        Some(v) => v,
        None => {
            return Err(MoneyParseError::Overflow);
        },
    };
    match euro_cents.checked_add(cents) {
        Some(v) => Ok(v),
        None => Err(MoneyParseError::Overflow),
    }
}

/// The string with every euro sign removed.
pub open spec fn strip_euro(s: Seq<char>) -> Seq<char>
    decreases s.len(),
{
    if s.len() == 0 {
        Seq::<char>::empty()
    } else {
        (if s[0] == '€' {
            Seq::<char>::empty()
        } else {
            seq![s[0]]
        }) + strip_euro(s.drop_first())
    }
}

/// Removing euro signs commutes with extending the string.
proof fn lemma_strip_euro_push(s: Seq<char>, c: char)
    ensures
        strip_euro(s.push(c)) == strip_euro(s) + (if c == '€' {
            Seq::<char>::empty()
        } else {
            seq![c]
        }),
    decreases s.len(),
{
    let tail = if c == '€' {
        Seq::<char>::empty()
    } else {
        seq![c]
    };
    if s.len() == 0 {
        assert(s.push(c)[0] == c);
        assert(s.push(c).drop_first() =~= Seq::<char>::empty());
        assert(strip_euro(Seq::<char>::empty()) == Seq::<char>::empty());
        assert(strip_euro(s) == Seq::<char>::empty());
        assert(strip_euro(s.push(c)) =~= tail);
        assert(strip_euro(s) + tail =~= tail);
    } else {
        lemma_strip_euro_push(s.drop_first(), c);
        assert(s.push(c)[0] == s[0]);
        assert(s.push(c).drop_first() =~= s.drop_first().push(c));
        let head = if s[0] == '€' {
            Seq::<char>::empty()
        } else {
            seq![s[0]]
        };
        assert(strip_euro(s.push(c)) == head + (strip_euro(s.drop_first()) + tail));
        assert(head + (strip_euro(s.drop_first()) + tail) =~= (head + strip_euro(s.drop_first()))
            + tail);
    }
}

/// The amount named by a money string: euro signs are ignored; with a `,`
/// or `.` the string is euros and cents, without one it is whole euros.
pub open spec fn spec_parse_money(s: Seq<char>) -> Result<i64, MoneyParseError> {
    let t = strip_euro(s);
    if first_sep(t, ',') >= 0 || first_sep(t, '.') >= 0 {
        spec_parse_euros_and_cents(t)
    } else if !(valid_int_str(t) && i64::MIN <= int_val(t) <= i64::MAX) {
        Err(MoneyParseError::InvalidNumber)
    } else if !(i64::MIN <= int_val(t) * 100 <= i64::MAX) {
        Err(MoneyParseError::Overflow)
    } else {
        Ok((int_val(t) * 100) as i64)
    }
}

/// Reads a money string (for example `€10,50` or `1000`) into cents.
pub fn parse_money(input: &str) -> (r: Result<i64, MoneyParseError>)
    ensures
        r == spec_parse_money(input@),
{
    let len = input.unicode_len();
    let mut stripped = String::new();
    let mut i: usize = 0;
    proof {
        assert(input@.take(0) =~= Seq::<char>::empty());
        assert(strip_euro(Seq::<char>::empty()) == Seq::<char>::empty());
    }
    while i < len
        invariant
            0 <= i <= len,
            len == input@.len(),
            stripped@ == strip_euro(input@.take(i as int)),
        decreases len - i,
    {
        let c = input.get_char(i);
        proof {
            lemma_strip_euro_push(input@.take(i as int), c);
            assert(input@.take(i as int).push(c) =~= input@.take(i as int + 1));
            if c != '€' {
                assert(strip_euro(input@.take(i as int)) + seq![c] =~= stripped@.push(c));
            } else {
                assert(strip_euro(input@.take(i as int)) + Seq::<char>::empty() =~= stripped@);
            }
        }
        if c != '€' {
            push_char(&mut stripped, c);
        }
        i += 1;
    }
    proof {
        assert(input@.take(len as int) =~= input@);
    }
    let has_comma = find_char(stripped.as_str(), ',').is_some();
    let has_dot = find_char(stripped.as_str(), '.').is_some();
    if has_comma || has_dot {
        return parse_euros_and_cents(stripped.as_str());
    }
    let value = match parse_i64(stripped.as_str()) {
        Some(v) => v,
        None => {
            return Err(MoneyParseError::InvalidNumber);
        },
    };
    match value.checked_mul(100) {
        Some(v) => Ok(v),
        None => Err(MoneyParseError::Overflow),
    }
}

/// The fields of one order as read from a command, before the client name
/// is attached.
#[derive(Clone, Copy, Debug, PartialEq, Eq, Structural)]
pub struct OrderParams {
    pub number: i32,
    pub piece: FinalPiece,
    pub quantity: i32,
    pub due_date: i32,
    pub late_penalty: i64,
    pub early_penalty: i64,
}

impl OrderParams {
    /// Attaches the client name, yielding the ingested order record.
    pub fn into_client_order(self, client_name: String) -> (r: ClientOrder)
        ensures
            r.client_name == client_name,
            r.order_number == self.number,
            r.work_piece == self.piece,
            r.quantity == self.quantity,
            r.due_date == self.due_date,
            r.late_penalty == self.late_penalty,
            r.early_penalty == self.early_penalty,
    {
        ClientOrder {
            client_name,
            order_number: self.number,
            work_piece: self.piece,
            quantity: self.quantity,
            due_date: self.due_date,
            late_penalty: self.late_penalty,
            early_penalty: self.early_penalty,
        }
    }
}

/// The order named by six field strings, or nothing when any field is
/// malformed: the penalties as money, the number, quantity and due date as
/// 32-bit integers, the piece by its code.
pub open spec fn spec_order_params(
    number: Seq<char>,
    piece: Seq<char>,
    quantity: Seq<char>,
    due_date: Seq<char>,
    late_pen: Seq<char>,
    early_pen: Seq<char>,
) -> Option<OrderParams> {
    if spec_parse_money(late_pen) is Err {
        None
    } else if spec_parse_money(early_pen) is Err {
        None
    } else if !(valid_int_str(number) && i32::MIN <= int_val(number) <= i32::MAX) {
        None
    } else if FinalPiece::spec_from_code(piece) is None {
        None
    } else if !(valid_int_str(quantity) && i32::MIN <= int_val(quantity) <= i32::MAX) {
        None
    } else if !(valid_int_str(due_date) && i32::MIN <= int_val(due_date) <= i32::MAX) {
        None
    } else {
        Some(
            OrderParams {
                number: int_val(number) as i32,
                piece: FinalPiece::spec_from_code(piece)->Some_0,
                quantity: int_val(quantity) as i32,
                due_date: int_val(due_date) as i32,
                late_penalty: spec_parse_money(late_pen)->Ok_0,
                early_penalty: spec_parse_money(early_pen)->Ok_0,
            },
        )
    }
}

/// Reads the six fields of one order, rejecting the order when any field
/// is malformed.
pub fn try_new_order_params(
    number: &str,
    piece: &str,
    quantity: &str,
    due_date: &str,
    late_pen: &str,
    early_pen: &str,
) -> (r: Option<OrderParams>)
    ensures
        r == spec_order_params(number@, piece@, quantity@, due_date@, late_pen@, early_pen@),
{
    let late_penalty = match parse_money(late_pen) {
        Ok(v) => v,
        Err(_) => {
            return None;
        },
    };
    let early_penalty = match parse_money(early_pen) {
        Ok(v) => v,
        Err(_) => {
            return None;
        },
    };
    let number = match parse_i32(number) {
        Some(v) => v,
        None => {
            return None;
        },
    };
    let piece = match FinalPiece::from_code(piece) {
        Some(p) => p,
        None => {
            return None;
        },
    };
    let quantity = match parse_i32(quantity) {
        Some(v) => v,
        None => {
            return None;
        },
    };
    let due_date = match parse_i32(due_date) {
        Some(v) => v,
        None => {
            return None;
        },
    };
    Some(OrderParams { number, piece, quantity, due_date, late_penalty, early_penalty })
}

/// A whitespace character, as the command grammar skips it.
pub open spec fn is_ws(c: char) -> bool {
    c == ' ' || c == '\t' || c == '\n' || c == '\r'
}

/// The position after any run of whitespace starting at `i`.
pub open spec fn sp_ws(s: Seq<char>, i: int) -> int
    decreases s.len() - i
        when 0 <= i <= s.len()
{
    if 0 <= i < s.len() && is_ws(s[i]) {
        sp_ws(s, i + 1)
    } else {
        i
    }
}

/// Skipping whitespace stays within the string and stops at the first
/// non-whitespace character.
pub proof fn lemma_sp_ws(s: Seq<char>, i: int)
    requires
        0 <= i <= s.len(),
    ensures
        i <= sp_ws(s, i) <= s.len(),
    decreases s.len() - i,
{
    if 0 <= i < s.len() && is_ws(s[i]) {
        lemma_sp_ws(s, i + 1);
    }
}

/// The literal `t` stands at position `i`.
pub open spec fn sp_match(s: Seq<char>, i: int, t: Seq<char>) -> bool {
    0 <= i && i + t.len() <= s.len() && s.subrange(i, i + t.len()) == t
}

/// The first position at or after `i` where the literal `t` stands.
pub open spec fn sp_find(s: Seq<char>, i: int, t: Seq<char>) -> Option<int>
    decreases s.len() - i
        when 0 <= i <= s.len()
{
    if i + t.len() > s.len() {
        None
    } else if sp_match(s, i, t) {
        Some(i)
    } else if i == s.len() {
        None
    } else {
        sp_find(s, i + 1, t)
    }
}

/// A found literal stands within the string, at or after the start.
pub proof fn lemma_sp_find(s: Seq<char>, i: int, t: Seq<char>)
    requires
        0 <= i <= s.len(),
    ensures
        match sp_find(s, i, t) {
            Some(j) => i <= j && j + t.len() <= s.len() && sp_match(s, j, t),
            None => true,
        },
    decreases s.len() - i,
{
    if i + t.len() <= s.len() && !sp_match(s, i, t) && i < s.len() {
        lemma_sp_find(s, i + 1, t);
    }
}

/// A quoted run: a `"` at `i`, content up to the next `"`, both quotes
/// consumed. Yields the position after the closing quote and the content.
pub open spec fn sp_quoted(s: Seq<char>, i: int) -> Option<(int, Seq<char>)> {
    if 0 <= i < s.len() && s[i] == '"' {
        match sp_find(s, i + 1, seq!['"']) {
            Some(j) => Some((j + 1, s.subrange(i + 1, j))),
            None => None,
        }
    } else {
        None
    }
}

/// A parsed quoted run ends after its opening quote and within the string.
pub proof fn lemma_sp_quoted(s: Seq<char>, i: int)
    requires
        0 <= i <= s.len(),
    ensures
        match sp_quoted(s, i) {
            Some((p, _)) => i + 2 <= p <= s.len(),
            None => true,
        },
{
    if 0 <= i < s.len() && s[i] == '"' {
        lemma_sp_find(s, i + 1, seq!['"']);
    }
}

/// One attribute field: the literal name, a quoted value, then whitespace;
/// when `require_ws` is set at least one whitespace character must follow.
pub open spec fn sp_field(s: Seq<char>, i: int, name: Seq<char>, require_ws: bool) -> Option<
    (int, Seq<char>),
> {
    if !sp_match(s, i, name) {
        None
    } else {
        match sp_quoted(s, i + name.len()) {
            None => None,
            Some((j, content)) => {
                let k = sp_ws(s, j);
                if require_ws && k == j {
                    None
                } else {
                    Some((k, content))
                }
            },
        }
    }
}

/// A parsed field moves the position forward and stays in the string.
pub proof fn lemma_sp_field(s: Seq<char>, i: int, name: Seq<char>, require_ws: bool)
    requires
        0 <= i <= s.len(),
    ensures
        match sp_field(s, i, name, require_ws) {
            Some((k, _)) => i + name.len() + 2 <= k <= s.len(),
            None => true,
        },
{
    if sp_match(s, i, name) {
        lemma_sp_quoted(s, i + name.len());
        match sp_quoted(s, i + name.len()) {
            Some((j, _)) => {
                lemma_sp_ws(s, j);
            },
            None => {},
        }
    }
}

/// One `<Order .../>` element: the six attribute fields in their fixed
/// order, the whole terminated by `/>` and optional whitespace. Yields the
/// position after the element and the order, or `None` in place of an
/// order whose fields are malformed.
pub open spec fn sp_order(s: Seq<char>, i: int) -> Option<(int, Option<OrderParams>)> {
    if !sp_match(s, i, "<Order"@) {
        None
    } else {
        let i1 = i + "<Order"@.len();
        let i2 = sp_ws(s, i1);
        if i2 == i1 {
            None
        } else {
            match sp_field(s, i2, "Number="@, true) {
                None => None,
                Some((i3, number)) => match sp_field(s, i3, "WorkPiece="@, true) {
                    None => None,
                    Some((i4, piece)) => match sp_field(s, i4, "Quantity="@, true) {
                        None => None,
                        Some((i5, quantity)) => match sp_field(s, i5, "DueDate="@, true) {
                            None => None,
                            Some((i6, due_date)) => match sp_field(s, i6, "LatePen="@, true) {
                                None => None,
                                Some((i7, late_pen)) => match sp_field(
                                    s,
                                    i7,
                                    "EarlyPen="@,
                                    false,
                                ) {
                                    None => None,
                                    Some((i8, early_pen)) => {
                                        if !sp_match(s, i8, "/>"@) {
                                            None
                                        } else {
                                            let end = sp_ws(s, i8 + "/>"@.len());
                                            Some(
                                                (
                                                    end,
                                                    spec_order_params(
                                                        number,
                                                        piece,
                                                        quantity,
                                                        due_date,
                                                        late_pen,
                                                        early_pen,
                                                    ),
                                                ),
                                            )
                                        }
                                    },
                                },
                            },
                        },
                    },
                },
            }
        }
    }
}

/// A parsed order element strictly advances the position and stays in the
/// string.
pub proof fn lemma_sp_order_progress(s: Seq<char>, i: int)
    requires
        0 <= i <= s.len(),
    ensures
        match sp_order(s, i) {
            Some((end, _)) => i < end <= s.len(),
            None => true,
        },
{
    if sp_match(s, i, "<Order"@) {
        let i1 = i + "<Order"@.len();
        lemma_sp_ws(s, i1);
        let i2 = sp_ws(s, i1);
        if i2 != i1 {
            lemma_sp_field(s, i2, "Number="@, true);
            match sp_field(s, i2, "Number="@, true) {
                None => {},
                Some((i3, _)) => {
                    lemma_sp_field(s, i3, "WorkPiece="@, true);
                    match sp_field(s, i3, "WorkPiece="@, true) {
                        None => {},
                        Some((i4, _)) => {
                            lemma_sp_field(s, i4, "Quantity="@, true);
                            match sp_field(s, i4, "Quantity="@, true) {
                                None => {},
                                Some((i5, _)) => {
                                    lemma_sp_field(s, i5, "DueDate="@, true);
                                    match sp_field(s, i5, "DueDate="@, true) {
                                        None => {},
                                        Some((i6, _)) => {
                                            lemma_sp_field(s, i6, "LatePen="@, true);
                                            match sp_field(s, i6, "LatePen="@, true) {
                                                None => {},
                                                Some((i7, _)) => {
                                                    lemma_sp_field(s, i7, "EarlyPen="@, false);
                                                    match sp_field(s, i7, "EarlyPen="@, false) {
                                                        None => {},
                                                        Some((i8, _)) => {
                                                            if sp_match(s, i8, "/>"@) {
                                                                lemma_sp_ws(
                                                                    s,
                                                                    i8 + "/>"@.len(),
                                                                );
                                                            }
                                                        },
                                                    }
                                                },
                                            }
                                        },
                                    }
                                },
                            }
                        },
                    }
                },
            }
        }
    }
}

/// Zero or more further order elements from `i`, stopping where none
/// parses; the malformed ones are dropped. `None` only when the fuel runs
/// out before the elements do.
pub open spec fn sp_orders(s: Seq<char>, i: int, fuel: nat) -> Option<(int, Seq<OrderParams>)>
    decreases fuel,
{
    match sp_order(s, i) {
        None => Some((i, Seq::<OrderParams>::empty())),
        Some((j, op)) => {
            if fuel == 0 {
                None
            } else {
                match sp_orders(s, j, (fuel - 1) as nat) {
                    None => None,
                    Some((k, rest)) => Some(
                        (
                            k,
                            (match op {
                                Some(o) => seq![o],
                                None => Seq::<OrderParams>::empty(),
                            }) + rest,
                        ),
                    ),
                }
            }
        },
    }
}

/// Everything up to and including the literal `t`, then any whitespace.
pub open spec fn sp_remove_around(s: Seq<char>, i: int, t: Seq<char>) -> Option<int> {
    match sp_find(s, i, t) {
        None => None,
        Some(j) => Some(sp_ws(s, j + t.len())),
    }
}

/// A whole command: an XML preamble up to `<DOCUMENT>`, the client name,
/// one or more order elements, and the closing `</DOCUMENT>`. Yields the
/// client name and the well-formed orders.
pub open spec fn sp_command(s: Seq<char>) -> Option<(Seq<char>, Seq<OrderParams>)> {
    match sp_remove_around(s, 0, "<DOCUMENT>"@) {
        None => None,
        Some(i1) => {
            if !sp_match(s, i1, "<Client NameId="@) {
                None
            } else {
                match sp_quoted(s, i1 + "<Client NameId="@.len()) {
                    None => None,
                    Some((i2, name)) => {
                        if !sp_match(s, i2, "/>"@) {
                            None
                        } else {
                            let i3 = sp_ws(s, i2 + "/>"@.len());
                            if sp_order(s, i3) is None {
                                None
                            } else {
                                match sp_orders(s, i3, (s.len() + 1) as nat) {
                                    None => None,
                                    Some((i4, orders)) => match sp_remove_around(
                                        s,
                                        i4,
                                        "</DOCUMENT>"@,
                                    ) {
                                        None => None,
                                        Some(_) => Some((name, orders)),
                                    },
                                }
                            }
                        }
                    },
                }
            }
        },
    }
}

/// Skips any run of whitespace.
fn skip_ws(s: &str, i: usize) -> (r: usize)
    requires
        i <= s@.len(),
    ensures
        r == sp_ws(s@, i as int),
        i <= r <= s@.len(),
{
    let len = s.unicode_len();
    let mut j = i;
    while j < len
        invariant
            i <= j <= len,
            len == s@.len(),
            sp_ws(s@, i as int) == sp_ws(s@, j as int),
        decreases len - j,
    {
        let c = s.get_char(j);
        if c == ' ' || c == '\t' || c == '\n' || c == '\r' {
            j += 1;
        } else {
            return j;
        }
    }
    j
}

/// Whether the literal stands at the position.
fn match_at(s: &str, i: usize, t: &str) -> (r: bool)
    ensures
        r == sp_match(s@, i as int, t@),
{
    let sl = s.unicode_len();
    let tl = t.unicode_len();
    if i > sl || tl > sl - i {
        return false;
    }
    let mut j: usize = 0;
    while j < tl
        invariant
            0 <= j <= tl,
            sl == s@.len(),
            tl == t@.len(),
            i + tl <= sl,
            forall|k: int| 0 <= k < j ==> s@[i + k] == t@[k],
        decreases tl - j,
    {
        let sc = s.get_char(i + j);
        let tc = t.get_char(j);
        if sc != tc {
            proof {
                assert(s@.subrange(i as int, i as int + t@.len())[j as int] == s@[i + j]);
            }
            return false;
        }
        j += 1;
    }
    proof {
        assert(s@.subrange(i as int, i as int + t@.len()) =~= t@);
    }
    true
}

/// Finds the first position at or after `i` where the literal stands.
fn find_at(s: &str, i: usize, t: &str) -> (r: Option<usize>)
    requires
        i <= s@.len(),
    ensures
        match r {
            Some(j) => sp_find(s@, i as int, t@) == Some(j as int) && i <= j && j + t@.len()
                <= s@.len(),
            None => sp_find(s@, i as int, t@) is None,
        },
{
    let sl = s.unicode_len();
    let tl = t.unicode_len();
    let mut j = i;
    while j < sl || (j == sl && tl == 0)
        invariant
            i <= j <= sl,
            sl == s@.len(),
            tl == t@.len(),
            sp_find(s@, i as int, t@) == sp_find(s@, j as int, t@),
        decreases sl + 1 - j,
    {
        if tl > sl - j {
            return None;
        }
        if match_at(s, j, t) {
            return Some(j);
        }
        if j == sl {
            return None;
        }
        j += 1;
    }
    None
}

/// Reads a quoted run, returning the position after the closing quote and
/// the content bounds.
fn quoted_at(s: &str, i: usize) -> (r: Option<(usize, usize, usize)>)
    requires
        i <= s@.len(),
    ensures
        match r {
            Some((p, a, b)) => a as int <= b as int <= s@.len() && sp_quoted(s@, i as int)
                == Some((p as int, s@.subrange(a as int, b as int))) && p <= s@.len(),
            None => sp_quoted(s@, i as int) is None,
        },
{
    let len = s.unicode_len();
    if i >= len {
        return None;
    }
    let c = s.get_char(i);
    if c != '"' {
        return None;
    }
    let quote = "\"";
    proof {
        reveal_strlit("\"");
        assert(quote@ =~= seq!['"']);
    }
    match find_at(s, i + 1, quote) {
        Some(j) => Some((j + 1, i + 1, j)),
        None => None,
    }
}

/// Reads one attribute field: the literal name, a quoted value, then
/// whitespace (at least one character of it when required).
fn field_at(s: &str, i: usize, name: &str, require_ws: bool) -> (r: Option<(usize, usize, usize)>)
    requires
        i <= s@.len(),
    ensures
        match r {
            Some((k, a, b)) => a as int <= b as int <= s@.len() && sp_field(
                s@,
                i as int,
                name@,
                require_ws,
            ) == Some((k as int, s@.subrange(a as int, b as int))) && k <= s@.len(),
            None => sp_field(s@, i as int, name@, require_ws) is None,
        },
{
    let slen = s.unicode_len();
    if !match_at(s, i, name) {
        return None;
    }
    let after_name = i + name.unicode_len();
    proof {
        lemma_sp_quoted(s@, after_name as int);
    }
    let (j, a, b) = match quoted_at(s, after_name) {
        Some(q) => q,
        None => {
            return None;
        },
    };
    let k = skip_ws(s, j);
    if require_ws && k == j {
        return None;
    }
    Some((k, a, b))
}

/// Reads one `<Order .../>` element; yields the position after it and the
/// order, or `None` in the order's place when its fields are malformed.
pub fn parse_orders(s: &str, i: usize) -> (r: Option<(usize, Option<OrderParams>)>)
    requires
        i <= s@.len(),
    ensures
        match r {
            Some((p, op)) => sp_order(s@, i as int) == Some((p as int, op)) && i < p <= s@.len(),
            None => sp_order(s@, i as int) is None,
        },
{
    let slen = s.unicode_len();
    if !match_at(s, i, "<Order") {
        return None;
    }
    let i1 = i + "<Order".unicode_len();
    let i2 = skip_ws(s, i1);
    if i2 == i1 {
        return None;
    }
    let (i3, na, nb) = match field_at(s, i2, "Number=", true) {
        Some(f) => f,
        None => {
            return None;
        },
    };
    let (i4, pa, pb) = match field_at(s, i3, "WorkPiece=", true) {
        Some(f) => f,
        None => {
            return None;
        },
    };
    let (i5, qa, qb) = match field_at(s, i4, "Quantity=", true) {
        Some(f) => f,
        None => {
            return None;
        },
    };
    let (i6, da, db) = match field_at(s, i5, "DueDate=", true) {
        Some(f) => f,
        None => {
            return None;
        },
    };
    let (i7, la, lb) = match field_at(s, i6, "LatePen=", true) {
        Some(f) => f,
        None => {
            return None;
        },
    };
    let (i8, ea, eb) = match field_at(s, i7, "EarlyPen=", false) {
        Some(f) => f,
        None => {
            return None;
        },
    };
    if !match_at(s, i8, "/>") {
        return None;
    }
    let end = skip_ws(s, i8 + "/>".unicode_len());
    let number = s.substring_char(na, nb);
    let piece = s.substring_char(pa, pb);
    let quantity = s.substring_char(qa, qb);
    let due_date = s.substring_char(da, db);
    let late_pen = s.substring_char(la, lb);
    let early_pen = s.substring_char(ea, eb);
    let op = try_new_order_params(number, piece, quantity, due_date, late_pen, early_pen);
    proof {
        lemma_sp_order_progress(s@, i as int);
    }
    Some((end, op))
}

/// The command is not shaped as the grammar demands.
#[derive(Clone, Copy, Debug, PartialEq, Eq, Structural)]
pub enum CommandParseError {
    Malformed,
}

/// Reads a whole client command: the `<DOCUMENT>` wrapper, the client
/// name, and one or more order elements, dropping orders with malformed
/// fields. Every returned order carries the command's client name.
pub fn parse_command(input: &str) -> (r: Result<Vec<ClientOrder>, CommandParseError>)
    ensures
        match sp_command(input@) {
            Some((name, orders)) => (match r {
                Ok(v) => v@.len() == orders.len() && (forall|k: int|
                    0 <= k < v@.len() ==> {
                        let co = #[trigger] v@[k];
                        &&& co.client_name@ == name
                        &&& co.order_number == orders[k].number
                        &&& co.work_piece == orders[k].piece
                        &&& co.quantity == orders[k].quantity
                        &&& co.due_date == orders[k].due_date
                        &&& co.late_penalty == orders[k].late_penalty
                        &&& co.early_penalty == orders[k].early_penalty
                    }),
                Err(_) => false,
            }),
            None => r is Err,
        },
{
    let len = input.unicode_len();
    let i1 = match find_at(input, 0, "<DOCUMENT>") {
        Some(j) => {
            proof {
                lemma_sp_ws(input@, j as int + "<DOCUMENT>"@.len());
            }
            skip_ws(input, j + "<DOCUMENT>".unicode_len())
        },
        None => {
            return Err(CommandParseError::Malformed);
        },
    };
    if !match_at(input, i1, "<Client NameId=") {
        return Err(CommandParseError::Malformed);
    }
    let after = i1 + "<Client NameId=".unicode_len();
    proof {
        lemma_sp_quoted(input@, after as int);
    }
    let (i2, na, nb) = match quoted_at(input, after) {
        Some(q) => q,
        None => {
            return Err(CommandParseError::Malformed);
        },
    };
    if !match_at(input, i2, "/>") {
        return Err(CommandParseError::Malformed);
    }
    let i3 = skip_ws(input, i2 + "/>".unicode_len());
    if parse_orders(input, i3).is_none() {
        return Err(CommandParseError::Malformed);
    }

    let ghost fuel0: nat = (input@.len() + 1) as nat;
    let mut params: Vec<OrderParams> = Vec::new();
    let mut pos = i3;
    let ghost mut fuel: nat = fuel0;
    let mut going = true;
    while going
        invariant
            i3 <= pos <= input@.len(),
            fuel >= input@.len() - pos + 1,
            fuel <= fuel0,
            sp_orders(input@, i3 as int, fuel0) == (if going {
                match sp_orders(input@, pos as int, fuel) {
                    None => None::<(int, Seq<OrderParams>)>,
                    Some((k, rest)) => Some((k, params@ + rest)),
                }
            } else {
                Some((pos as int, params@))
            }),
        decreases input@.len() - pos + (if going {
            1int
        } else {
            0int
        }),
    {
        match parse_orders(input, pos) {
            Some((np, op)) => {
                let ghost params0 = params@;
                if let Some(o) = op {
                    params.push(o);
                }
                proof {
                    fuel = (fuel - 1) as nat;
                    match sp_orders(input@, np as int, fuel) {
                        None => {},
                        Some((k, rest)) => {
                            match op {
                                Some(o) => {
                                    assert(params0 + (seq![o] + rest) =~= params@ + rest);
                                },
                                None => {
                                    assert(params0 + (Seq::<OrderParams>::empty() + rest)
                                        =~= params@ + rest);
                                },
                            }
                        },
                    }
                }
                pos = np;
            },
            None => {
                proof {
                    assert(params@ + Seq::<OrderParams>::empty() =~= params@);
                }
                going = false;
            },
        }
    }

    match find_at(input, pos, "</DOCUMENT>") {
        Some(_) => {},
        None => {
            return Err(CommandParseError::Malformed);
        },
    }

    let name = input.substring_char(na, nb);
    let mut out: Vec<ClientOrder> = Vec::new();
    let mut k: usize = 0;
    while k < params.len()
        invariant
            0 <= k <= params@.len(),
            out@.len() == k,
            na as int <= nb as int <= input@.len(),
            name@ == input@.subrange(na as int, nb as int),
            forall|j: int|
                0 <= j < out@.len() ==> {
                    let co = #[trigger] out@[j];
                    &&& co.client_name@ == name@
                    &&& co.order_number == params@[j].number
                    &&& co.work_piece == params@[j].piece
                    &&& co.quantity == params@[j].quantity
                    &&& co.due_date == params@[j].due_date
                    &&& co.late_penalty == params@[j].late_penalty
                    &&& co.early_penalty == params@[j].early_penalty
                },
        decreases params@.len() - k,
    {
        let p = params[k];
        let owned: String = String::from_str(name);
        out.push(p.into_client_order(owned));
        k += 1;
    }
    Ok(out)
}

} // verus!
