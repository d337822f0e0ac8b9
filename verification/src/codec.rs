//! The transport line codec: decoding one line of text into a participant
//! record, and rendering one narration event into one human-readable line.
//! A record is three whitespace-separated tokens, `name energy power`, the
//! last two non-negative decimal integers. The rendered wording is fixed
//! here but is not part of the portable contract; the event kinds and
//! their payload fields are.

use vstd::prelude::*;

use crate::model::{AttackType, ClientAction, DecodeError, PlayerInfo};

verus! {

/// The decimal digit characters, by value.
pub open spec fn digit_char(d: int) -> char {
    if d == 0 {
        '0'
    } else if d == 1 {
        '1'
    } else if d == 2 {
        '2'
    } else if d == 3 {
        '3'
    } else if d == 4 {
        '4'
    } else if d == 5 {
        '5'
    } else if d == 6 {
        '6'
    } else if d == 7 {
        '7'
    } else if d == 8 {
        '8'
    } else {
        '9'
    }
}

/// The decimal rendering of a non-negative number, most significant
/// digit first, with no leading zeroes (a lone zero for zero).
pub open spec fn dec_chars(n: int) -> Seq<char>
    decreases n,
{
    if n < 10 {
        seq![digit_char(n)]
    } else {
        dec_chars(n / 10).push(digit_char(n % 10))
    }
}

/// Appends one decimal digit character.
fn append_digit(s: &mut String, d: u64)
    requires
        d < 10,
    ensures
        final(s)@ == old(s)@.push(digit_char(d as int)),
{
    if d == 0 {
        s.append("0");
        proof {
            reveal_strlit("0");
            assert(old(s)@ + "0"@ =~= old(s)@.push(digit_char(d as int)));
        }
    } else if d == 1 {
        s.append("1");
        proof {
            reveal_strlit("1");
            assert(old(s)@ + "1"@ =~= old(s)@.push(digit_char(d as int)));
        }
    } else if d == 2 {
        s.append("2");
        proof {
            reveal_strlit("2");
            assert(old(s)@ + "2"@ =~= old(s)@.push(digit_char(d as int)));
        }
    } else if d == 3 {
        s.append("3");
        proof {
            reveal_strlit("3");
            assert(old(s)@ + "3"@ =~= old(s)@.push(digit_char(d as int)));
        }
    } else if d == 4 {
        s.append("4");
        proof {
            reveal_strlit("4");
            assert(old(s)@ + "4"@ =~= old(s)@.push(digit_char(d as int)));
        }
    } else if d == 5 {
        s.append("5");
        proof {
            reveal_strlit("5");
            assert(old(s)@ + "5"@ =~= old(s)@.push(digit_char(d as int)));
        }
    } else if d == 6 {
        s.append("6");
        proof {
            reveal_strlit("6");
            assert(old(s)@ + "6"@ =~= old(s)@.push(digit_char(d as int)));
        }
    } else if d == 7 {
        s.append("7");
        proof {
            reveal_strlit("7");
            assert(old(s)@ + "7"@ =~= old(s)@.push(digit_char(d as int)));
        }
    } else if d == 8 {
        s.append("8");
        proof {
            reveal_strlit("8");
            assert(old(s)@ + "8"@ =~= old(s)@.push(digit_char(d as int)));
        }
    } else {
        s.append("9");
        proof {
            reveal_strlit("9");
            assert(old(s)@ + "9"@ =~= old(s)@.push(digit_char(d as int)));
        }
    }
}

/// Renders a number in decimal, most significant digit first.
pub fn u64_to_string(n: u64) -> (r: String)
    ensures
        r@ == dec_chars(n as int),
    decreases n,
{
    if n < 10 {
        let mut s = String::new();
        append_digit(&mut s, n);
        proof {
            assert(Seq::<char>::empty().push(digit_char(n as int)) =~= dec_chars(n as int));
        }
        s
    } else {
        let mut s = u64_to_string(n / 10);
        append_digit(&mut s, n % 10);
        s
    }
}

/// The fixed label of each attack tier; the undefined fallback has none.
pub open spec fn tier_label(t: AttackType) -> Seq<char> {
    match t {
        AttackType::Miss => "Errou !"@,
        AttackType::Standard => "Normal"@,
        AttackType::Lucky => "Sorte!!!"@,
        AttackType::Critical => "Crítico!"@,
        AttackType::Undefined => ""@,
    }
}

impl AttackType {
    /// The tier's display label.
    pub fn label(&self) -> (r: String)
        ensures
            r@ == tier_label(*self),
    {
        match self {
            AttackType::Miss => String::from_str("Errou !"),
            AttackType::Standard => String::from_str("Normal"),
            AttackType::Lucky => String::from_str("Sorte!!!"),
            AttackType::Critical => String::from_str("Crítico!"),
            AttackType::Undefined => String::from_str(""),
        }
    }
}

/// The names joined with a comma and a space between neighbours.
pub open spec fn joined_names(names: Seq<Seq<char>>) -> Seq<char>
    decreases names.len(),
{
    if names.len() == 0 {
        Seq::<char>::empty()
    } else if names.len() == 1 {
        names[0]
    } else {
        names[0] + ", "@ + joined_names(names.skip(1))
    }
}

/// Joining one more name appends a separator (after the first) and the name.
proof fn lemma_joined_snoc(names: Seq<Seq<char>>, i: int)
    requires
        0 <= i < names.len(),
    ensures
        joined_names(names.take(i + 1)) =~= if i == 0 {
            names[0]
        } else {
            joined_names(names.take(i)) + ", "@ + names[i]
        },
    decreases i,
{
    if i == 0 {
        assert(names.take(1).len() == 1);
        assert(names.take(1)[0] == names[0]);
    } else if i == 1 {
        assert(names.take(2).len() == 2);
        assert(names.take(2)[0] == names[0]);
        assert(names.take(2).skip(1) =~= seq![names[1]]);
        assert(joined_names(seq![names[1]]) == names[1]);
        assert(joined_names(names.take(2)) =~= names[0] + ", "@ + names[1]);
        assert(names.take(1).len() == 1 && names.take(1)[0] == names[0]);
    } else {
        let tail = names.skip(1);
        assert(names.take(i + 1).skip(1) =~= tail.take(i));
        assert(names.take(i).skip(1) =~= tail.take(i - 1));
        lemma_joined_snoc(tail, i - 1);
        assert(joined_names(tail.take(i)) =~= joined_names(tail.take(i - 1)) + ", "@ + tail[i
            - 1]);
        assert(names.take(i + 1)[0] == names[0]);
        assert(names.take(i)[0] == names[0]);
        assert(joined_names(names.take(i + 1)) =~= names[0] + ", "@ + joined_names(tail.take(i)));
        assert(joined_names(names.take(i)) =~= names[0] + ", "@ + joined_names(tail.take(i - 1)));
        assert(names[0] + ", "@ + (joined_names(tail.take(i - 1)) + ", "@ + tail[i - 1]) =~= (
        names[0] + ", "@ + joined_names(tail.take(i - 1))) + ", "@ + tail[i - 1]);
    }
}

/// Appends the names joined with a comma and a space between neighbours.
fn append_joined(s: &mut String, names: &Vec<String>)
    ensures
        final(s)@ == old(s)@ + joined_names(names.deep_view()),
{
    let ghost views = names.deep_view();
    let mut i: usize = 0;
    while i < names.len()
        invariant
            0 <= i <= names@.len(),
            views == names.deep_view(),
            views.len() == names@.len(),
            s@ == old(s)@ + joined_names(views.take(i as int)),
        decreases names@.len() - i,
    {
        if i > 0 {
            s.append(", ");
        }
        s.append(names[i].as_str());
        proof {
            lemma_joined_snoc(views, i as int);
            assert(views[i as int] == names@[i as int]@);
            if i == 0 {
                assert(old(s)@ + joined_names(views.take(0)) =~= old(s)@);
                assert(s@ =~= old(s)@ + joined_names(views.take(1)));
            } else {
                assert(s@ =~= old(s)@ + joined_names(views.take(i + 1)));
            }
        }
        i = i + 1;
    }
    proof {
        assert(views.take(names@.len() as int) =~= views);
        if names@.len() == 0 {
            assert(s@ =~= old(s)@ + joined_names(views));
        }
    }
}

/// What each narration event renders to, one line per event.
pub open spec fn render_spec(a: ClientAction) -> Seq<char> {
    match a {
        ClientAction::AskPlayerInfo(n) => "Entre o personagem "@ + dec_chars(n as int),
        ClientAction::Start => "O jogo começou"@,
        ClientAction::AnnouncePlayers(p) => "Batalha entre ["@ + joined_names(p.deep_view())
            + "]"@,
        ClientAction::PlayerAction(p1, p2) => p1@ + " atacou "@ + p2@,
        ClientAction::AttackResult(t, d) => tier_label(t) + " - "@ + dec_chars(d as int) + " HP"@,
        ClientAction::Winner(p, hp) => "Jogo acabou, o vencedor foi "@ + p@
            + " com HP restante de "@ + dec_chars(hp as int),
        ClientAction::Message(m) => m@,
    }
}

/// Renders one narration event as its outbound line.
pub fn render_action(a: &ClientAction) -> (r: String)
    ensures
        r@ == render_spec(*a),
{
    match a {
        ClientAction::AskPlayerInfo(n) => {
            let mut s = String::from_str("Entre o personagem ");
            let num = u64_to_string(*n as u64);
            s.append(num.as_str());
            s
        },
        ClientAction::Start => String::from_str("O jogo começou"),
        ClientAction::AnnouncePlayers(p) => {
            let mut s = String::from_str("Batalha entre [");
            append_joined(&mut s, p);
            s.append("]");
            s
        },
        ClientAction::PlayerAction(p1, p2) => {
            let mut s = p1.clone();
            s.append(" atacou ");
            s.append(p2.as_str());
            s
        },
        ClientAction::AttackResult(t, d) => {
            let mut s = t.label();
            s.append(" - ");
            let num = u64_to_string(*d);
            s.append(num.as_str());
            s.append(" HP");
            s
        },
        ClientAction::Winner(p, hp) => {
            let mut s = String::from_str("Jogo acabou, o vencedor foi ");
            s.append(p.as_str());
            s.append(" com HP restante de ");
            let num = u64_to_string(*hp);
            s.append(num.as_str());
            s
        },
        ClientAction::Message(m) => m.clone(),
    }
}

/// ASCII whitespace, the token separator of the transport line protocol.
pub open spec fn is_space(c: char) -> bool {
    c == ' ' || c == '\t' || c == '\n' || c == '\r' || c == '\u{c}'
}

/// The whitespace-separated tokens of a line, read one character at a
/// time: whitespace closes the token being gathered, if any, and every
/// other character extends it.
pub open spec fn tokens_rec(s: Seq<char>, cur: Seq<char>) -> Seq<Seq<char>>
    decreases s.len(),
{
    if s.len() == 0 {
        if cur.len() == 0 {
            Seq::<Seq<char>>::empty()
        } else {
            seq![cur]
        }
    } else if is_space(s[0]) {
        if cur.len() == 0 {
            tokens_rec(s.skip(1), Seq::<char>::empty())
        } else {
            seq![cur] + tokens_rec(s.skip(1), Seq::<char>::empty())
        }
    } else {
        tokens_rec(s.skip(1), cur.push(s[0]))
    }
}

/// The whitespace-separated tokens of a line: the maximal runs of
/// non-whitespace characters, in order.
pub open spec fn tokens_of(s: Seq<char>) -> Seq<Seq<char>> {
    tokens_rec(s, Seq::<char>::empty())
}

/// The views of a list of borrowed tokens.
pub open spec fn token_views(r: Seq<&str>) -> Seq<Seq<char>> {
    r.map_values(|t: &str| t@)
}

/// Whether the character separates tokens.
fn is_space_exec(c: char) -> (r: bool)
    ensures
        r == is_space(c),
{
    c == ' ' || c == '\t' || c == '\n' || c == '\r' || c == '\u{c}'
}

/// Splits a line into its whitespace-separated tokens.
fn split_tokens(s: &str) -> (r: Vec<&str>)
    ensures
        token_views(r@) == tokens_of(s@),
{
    let len = s.unicode_len();
    let mut out: Vec<&str> = Vec::new();
    let mut i: usize = 0;
    let mut start: Option<usize> = None;
    proof {
        assert(s@.skip(0) =~= s@);
        assert(token_views(out@) =~= Seq::<Seq<char>>::empty());
    }
    while i < len
        invariant
            len == s@.len(),
            0 <= i <= len,
            match start {
                Option::None => tokens_of(s@) == token_views(out@) + tokens_rec(
                    s@.skip(i as int),
                    Seq::<char>::empty(),
                ),
                Option::Some(st) => st < i && tokens_of(s@) == token_views(out@) + tokens_rec(
                    s@.skip(i as int),
                    s@.subrange(st as int, i as int),
                ),
            },
        decreases len - i,
    {
        let c = s.get_char(i);
        proof {
            assert(s@.skip(i as int)[0] == s@[i as int]);
            assert(s@.skip(i as int).skip(1) =~= s@.skip(i + 1));
        }
        if is_space_exec(c) {
            match start {
                Some(st) => {
                    let tok = s.substring_char(st, i);
                    proof {
                        let ghost cur = s@.subrange(st as int, i as int);
                        assert(cur.len() > 0);
                        assert(token_views(out@.push(tok)) =~= token_views(out@).push(cur));
                        assert(token_views(out@) + (seq![cur] + tokens_rec(
                            s@.skip(i + 1),
                            Seq::<char>::empty(),
                        )) =~= token_views(out@).push(cur) + tokens_rec(
                            s@.skip(i + 1),
                            Seq::<char>::empty(),
                        ));
                    }
                    out.push(tok);
                    start = None;
                },
                None => {},
            }
        } else {
            match start {
                Some(_) => {
                    proof {
                        let st = start->0;
                        assert(s@.subrange(st as int, i as int).push(s@[i as int]) =~= s@.subrange(
                            st as int,
                            i + 1,
                        ));
                    }
                },
                None => {
                    start = Some(i);
                    proof {
                        assert(Seq::<char>::empty().push(s@[i as int]) =~= s@.subrange(
                            i as int,
                            i + 1,
                        ));
                    }
                },
            }
        }
        i = i + 1;
    }
    proof {
        assert(s@.skip(len as int) =~= Seq::<char>::empty());
    }
    match start {
        Some(st) => {
            let tok = s.substring_char(st, len);
            proof {
                let ghost cur = s@.subrange(st as int, len as int);
                assert(cur.len() > 0);
                assert(tokens_rec(Seq::<char>::empty(), cur) =~= seq![cur]);
                assert(token_views(out@.push(tok)) =~= token_views(out@).push(cur));
                assert(token_views(out@) + seq![cur] =~= token_views(out@).push(cur));
            }
            out.push(tok);
        },
        None => {
            proof {
                assert(tokens_rec(Seq::<char>::empty(), Seq::<char>::empty()) =~= Seq::<
                    Seq<char>,
                >::empty());
                assert(token_views(out@) + Seq::<Seq<char>>::empty() =~= token_views(out@));
            }
        },
    }
    out
}

/// A decimal digit.
pub open spec fn is_digit(c: char) -> bool {
    ('0' as u32) <= (c as u32) && (c as u32) <= ('9' as u32)
}

/// The value of a decimal digit character.
pub open spec fn digit_val(c: char) -> int {
    (c as u32) - ('0' as u32)
}

/// All characters are decimal digits.
pub open spec fn all_digits(s: Seq<char>) -> bool {
    forall|i: int| 0 <= i < s.len() ==> is_digit(s[i])
}

/// The number a run of decimal digits denotes, most significant first.
pub open spec fn decimal_of(s: Seq<char>) -> int
    decreases s.len(),
{
    if s.len() == 0 {
        0
    } else {
        decimal_of(s.drop_last()) * 10 + digit_val(s.last())
    }
}

/// A token that denotes a `u64`: non-empty, all digits, and in range.
pub open spec fn u64_token(s: Seq<char>) -> bool {
    s.len() > 0 && all_digits(s) && decimal_of(s) <= u64::MAX
}

/// Which decode error a token that denotes no `u64` draws.
pub open spec fn token_number_err(s: Seq<char>) -> DecodeError {
    if s.len() == 0 || !all_digits(s) {
        DecodeError::NotADigit
    } else {
        DecodeError::NumberTooLarge
    }
}

/// A run of digits denotes a non-negative number.
proof fn lemma_decimal_nonneg(s: Seq<char>)
    requires
        all_digits(s),
    ensures
        decimal_of(s) >= 0,
    decreases s.len(),
{
    if s.len() > 0 {
        assert(all_digits(s.drop_last()));
        lemma_decimal_nonneg(s.drop_last());
        assert(is_digit(s.last()));
    }
}

/// Dropping trailing digits never grows the denoted number.
proof fn lemma_decimal_prefix(s: Seq<char>, i: int)
    requires
        all_digits(s),
        0 <= i <= s.len(),
    ensures
        decimal_of(s.take(i)) <= decimal_of(s),
    decreases s.len() - i,
{
    if i == s.len() {
        assert(s.take(i) =~= s);
    } else {
        lemma_decimal_prefix(s, i + 1);
        assert(s.take(i + 1).drop_last() =~= s.take(i));
        assert(s.take(i + 1).last() == s[i]);
        assert(all_digits(s.take(i)));
        lemma_decimal_nonneg(s.take(i));
        assert(is_digit(s[i]));
        assert(decimal_of(s.take(i + 1)) == decimal_of(s.take(i)) * 10 + digit_val(s[i]));
        assert(decimal_of(s.take(i)) * 10 + digit_val(s[i]) >= decimal_of(s.take(i)));
    }
}

/// Parses a token as a non-negative decimal `u64`: the token's denoted
/// number exactly when the token is non-empty, all digits, and in range;
/// otherwise the error that says what was wrong.
pub fn parse_u64(t: &str) -> (r: Result<u64, DecodeError>)
    ensures
        u64_token(t@) ==> (r matches Ok(n) && n == decimal_of(t@)),
        !u64_token(t@) ==> r == Err::<u64, DecodeError>(token_number_err(t@)),
{
    let len = t.unicode_len();
    if len == 0 {
        return Err(DecodeError::NotADigit);
    }
    let mut i: usize = 0;
    while i < len
        invariant
            len == t@.len(),
            0 <= i <= len,
            forall|j: int| 0 <= j < i ==> is_digit(t@[j]),
        decreases len - i,
    {
        let c = t.get_char(i);
        let cu = c as u32;
        if cu < '0' as u32 || cu > '9' as u32 {
            proof {
                assert(!is_digit(t@[i as int]));
            }
            return Err(DecodeError::NotADigit);
        }
        i = i + 1;
    }
    proof {
        assert(all_digits(t@));
    }
    let mut acc: u64 = 0;
    i = 0;
    proof {
        assert(t@.take(0) =~= Seq::<char>::empty());
    }
    while i < len
        invariant
            len == t@.len(),
            0 <= i <= len,
            all_digits(t@),
            acc == decimal_of(t@.take(i as int)),
        decreases len - i,
    {
        let c = t.get_char(i);
        proof {
            assert(is_digit(t@[i as int]));
        }
        let d = (c as u32 - '0' as u32) as u64;
        let wide = (acc as u128) * 10 + (d as u128);
        proof {
            assert(t@.take(i + 1).drop_last() =~= t@.take(i as int));
            assert(t@.take(i + 1).last() == t@[i as int]);
            assert(decimal_of(t@.take(i + 1)) == decimal_of(t@.take(i as int)) * 10 + digit_val(
                t@[i as int],
            ));
        }
        if wide > u64::MAX as u128 {
            proof {
                lemma_decimal_prefix(t@, i + 1);
                assert(decimal_of(t@) > u64::MAX);
                assert(!u64_token(t@));
                assert(token_number_err(t@) == DecodeError::NumberTooLarge);
            }
            return Err(DecodeError::NumberTooLarge);
        }
        acc = wide as u64;
        i = i + 1;
    }
    proof {
        assert(t@.take(len as int) =~= t@);
        lemma_decimal_nonneg(t@);
        assert(u64_token(t@));
    }
    Ok(acc)
}

/// Decodes one transport line into a participant record: exactly three
/// whitespace-separated tokens, the name, the starting hit points and
/// the power, the last two non-negative decimal integers. Each malformed
/// line draws the error that says what was wrong: a token count other
/// than three, a non-digit in a numeric field, or a number out of range,
/// the hit points checked before the power.
pub fn parse_player_info(s: &str) -> (r: Result<PlayerInfo, DecodeError>)
    ensures
        tokens_of(s@).len() != 3 ==> r == Err::<PlayerInfo, DecodeError>(
            DecodeError::WrongTokenCount,
        ),
        tokens_of(s@).len() == 3 && !u64_token(tokens_of(s@)[1]) ==> r == Err::<
            PlayerInfo,
            DecodeError,
        >(token_number_err(tokens_of(s@)[1])),
        tokens_of(s@).len() == 3 && u64_token(tokens_of(s@)[1]) && !u64_token(tokens_of(s@)[2])
            ==> r == Err::<PlayerInfo, DecodeError>(token_number_err(tokens_of(s@)[2])),
        tokens_of(s@).len() == 3 && u64_token(tokens_of(s@)[1]) && u64_token(tokens_of(s@)[2])
            ==> (r matches Ok(p) && p.name@ == tokens_of(s@)[0] && p.energy == decimal_of(
            tokens_of(s@)[1],
        ) && p.power == decimal_of(tokens_of(s@)[2])),
{
    let tokens = split_tokens(s);
    proof {
        assert(token_views(tokens@).len() == tokens@.len());
    }
    if tokens.len() != 3 {
        return Err(DecodeError::WrongTokenCount);
    }
    proof {
        assert(tokens@[0]@ == tokens_of(s@)[0]);
        assert(tokens@[1]@ == tokens_of(s@)[1]);
        assert(tokens@[2]@ == tokens_of(s@)[2]);
    }
    let name = String::from_str(tokens[0]);
    let energy = match parse_u64(tokens[1]) {
        Ok(n) => n,
        Err(e) => {
            return Err(e);
        },
    };
    let power = match parse_u64(tokens[2]) {
        Ok(n) => n,
        Err(e) => {
            return Err(e);
        },
    };
    Ok(PlayerInfo { name, energy, power })
}

} // verus!
