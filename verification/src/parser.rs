//! The parser: re-splits each source line at spaces into a flat word
//! stream, then advances a cursor through it, turning each recognized
//! mnemonic and its operand words into one token.

use vstd::prelude::*;

use crate::error::EmulatorErr;
use crate::token::{reg_of, str_eq, token_wf, Register, Token};

verus! {

/// The words of one line, split at every space: consecutive spaces yield
/// empty words, and an empty line yields one empty word, exactly as a
/// single-space separator splits.
pub open spec fn split_words(s: Seq<char>) -> Seq<Seq<char>>
    decreases s.len(),
{
    if s.len() == 0 {
        seq![Seq::<char>::empty()]
    } else if s[0] == ' ' {
        seq![Seq::<char>::empty()] + split_words(s.drop_first())
    } else {
        let rest = split_words(s.drop_first());
        rest.update(0, seq![s[0]] + rest[0])
    }
}

proof fn lemma_split_words_nonempty(s: Seq<char>)
    ensures
        split_words(s).len() >= 1,
    decreases s.len(),
{
    if s.len() > 0 {
        lemma_split_words_nonempty(s.drop_first());
    }
}

/// The flat word stream of a whole source: the words of every line, in
/// order.
pub open spec fn split_all(lines: Seq<Seq<char>>) -> Seq<Seq<char>>
    decreases lines.len(),
{
    if lines.len() == 0 {
        Seq::empty()
    } else {
        split_words(lines[0]) + split_all(lines.drop_first())
    }
}

/// The character sequences a sequence of owned strings holds.
pub open spec fn views_of(ss: Seq<String>) -> Seq<Seq<char>> {
    ss.map_values(|s: String| s@)
}

/// A scanned-but-unfinished word merged onto the front of a split: the
/// shape a partially scanned line takes while its current word is open.
spec fn prepend_word(prefix: Seq<char>, ws: Seq<Seq<char>>) -> Seq<Seq<char>>
    recommends
        ws.len() >= 1,
{
    seq![prefix + ws[0]] + ws.subrange(1, ws.len() as int)
}

/// A binary digit.
pub open spec fn is_bin_digit(c: char) -> bool {
    c == '0' || c == '1'
}

/// The value of a binary numeral, most significant digit first.
pub open spec fn bin_value(w: Seq<char>) -> nat
    decreases w.len(),
{
    if w.len() == 0 {
        0
    } else {
        2 * bin_value(w.drop_last()) + (if w.last() == '1' {
            1nat
        } else {
            0nat
        })
    }
}

/// The immediate a word denotes: a nonempty string of binary digits whose
/// value fits in 4 bits. Anything else denotes none.
pub open spec fn imm_of(w: Seq<char>) -> Option<u8> {
    if w.len() > 0 && (forall|i: int| 0 <= i < w.len() ==> is_bin_digit(#[trigger] w[i]))
        && bin_value(w) <= 15 {
        Some(bin_value(w) as u8)
    } else {
        None
    }
}

proof fn lemma_bin_value_prefix_le(w: Seq<char>, k: int)
    requires
        0 <= k <= w.len(),
    ensures
        bin_value(w.subrange(0, k)) <= bin_value(w),
    decreases w.len() - k,
{
    if k == w.len() {
        assert(w.subrange(0, k) =~= w);
    } else {
        assert(w.subrange(0, k + 1).drop_last() =~= w.subrange(0, k));
        assert(bin_value(w.subrange(0, k)) <= bin_value(w.subrange(0, k + 1)));
        lemma_bin_value_prefix_le(w, k + 1);
    }
}

/// The token stream a word sequence parses to, from a cursor position.
/// Each recognized mnemonic consumes the fixed number of operand words it
/// requires and yields its token; a word that matches no mnemonic is
/// skipped, so blank words pass through harmlessly. `None` when an operand
/// word is missing, an immediate operand is not a 4-bit binary literal, or
/// a register operand names no register.
pub open spec fn parse_words(words: Seq<Seq<char>>, i: nat) -> Option<Seq<Token>>
    decreases words.len() - i,
{
    if i >= words.len() {
        Some(Seq::empty())
    } else {
        let w = words[i as int];
        if w == "mov"@ {
            if i + 2 >= words.len() {
                None
            } else {
                let lhs = words[i as int + 1];
                let rhs = words[i as int + 2];
                let tok = if lhs == "B"@ && rhs == "A"@ {
                    Some(Token::MovBA)
                } else if lhs == "A"@ && rhs == "B"@ {
                    Some(Token::MovAB)
                } else {
                    match (reg_of(lhs), imm_of(rhs)) {
                        (Some(r), Some(v)) => Some(Token::Mov(r, v)),
                        _ => None,
                    }
                };
                match (tok, parse_words(words, i + 3)) {
                    (Some(t), Some(rest)) => Some(seq![t] + rest),
                    _ => None,
                }
            }
        } else if w == "add"@ {
            if i + 2 >= words.len() {
                None
            } else {
                let tok = match (reg_of(words[i as int + 1]), imm_of(words[i as int + 2])) {
                    (Some(r), Some(v)) => Some(Token::Add(r, v)),
                    _ => None,
                };
                match (tok, parse_words(words, i + 3)) {
                    (Some(t), Some(rest)) => Some(seq![t] + rest),
                    _ => None,
                }
            }
        } else if w == "jmp"@ {
            if i + 1 >= words.len() {
                None
            } else {
                match (imm_of(words[i as int + 1]), parse_words(words, i + 2)) {
                    (Some(v), Some(rest)) => Some(seq![Token::Jmp(v)] + rest),
                    _ => None,
                }
            }
        } else if w == "jnc"@ {
            if i + 1 >= words.len() {
                None
            } else {
                match (imm_of(words[i as int + 1]), parse_words(words, i + 2)) {
                    (Some(v), Some(rest)) => Some(seq![Token::Jnc(v)] + rest),
                    _ => None,
                }
            }
        } else if w == "in"@ {
            if i + 1 >= words.len() {
                None
            } else {
                match (reg_of(words[i as int + 1]), parse_words(words, i + 2)) {
                    (Some(r), Some(rest)) => Some(seq![Token::In(r)] + rest),
                    _ => None,
                }
            }
        } else if w == "out"@ {
            if i + 1 >= words.len() {
                None
            } else {
                let operand = words[i as int + 1];
                let tok = if operand == "B"@ {
                    Some(Token::OutB)
                } else {
                    match imm_of(operand) {
                        Some(v) => Some(Token::OutIm(v)),
                        None => None,
                    }
                };
                match (tok, parse_words(words, i + 2)) {
                    (Some(t), Some(rest)) => Some(seq![t] + rest),
                    _ => None,
                }
            }
        } else {
            parse_words(words, i + 1)
        }
    }
}

/// The parser: a cursor over the flat word stream of the source lines it
/// was built from.
pub struct Parser {
    pub pos: usize,
    pub source: Vec<String>,
}

impl Parser {
    /// Splits every line at spaces, in order, into one flat word stream,
    /// and puts the cursor at its start.
    pub fn new(operations: Vec<String>) -> (r: Parser)
        ensures
            r.pos == 0,
            views_of(r.source@) == split_all(views_of(operations@)),
    {
        let ghost opsv = views_of(operations@);
        let mut source: Vec<String> = Vec::new();

        proof {
            assert(opsv.subrange(0, opsv.len() as int) =~= opsv);
            assert(views_of(source@) + split_all(opsv) =~= split_all(opsv));
        }

        let mut k: usize = 0;
        while k < operations.len()
            invariant
                k <= operations@.len(),
                opsv == views_of(operations@),
                split_all(opsv) == views_of(source@) + split_all(
                    opsv.subrange(k as int, opsv.len() as int),
                ),
            decreases operations@.len() - k,
        {
            let op = &operations[k];
            let ghost line = op@;
            proof {
                assert(line == opsv[k as int]);
            }
            let n = op.as_str().unicode_len();
            let mut words: Vec<String> = Vec::new();
            let mut start: usize = 0;
            let mut i: usize = 0;

            proof {
                lemma_split_words_nonempty(line);
                assert(line.subrange(0, n as int) =~= line);
                let sw = split_words(line);
                assert(Seq::<char>::empty() + sw[0] =~= sw[0]);
                assert(prepend_word(Seq::<char>::empty(), sw) =~= sw);
                assert(views_of(words@) + sw =~= sw);
            }

            while i < n
                invariant
                    start <= i <= n,
                    n == line.len(),
                    line == op@,
                    forall|j: int| start <= j < i ==> line[j] != ' ',
                    split_words(line) == views_of(words@) + prepend_word(
                        line.subrange(start as int, i as int),
                        split_words(line.subrange(i as int, n as int)),
                    ),
                decreases n - i,
            {
                let ghost cur = line.subrange(start as int, i as int);
                let ghost mid = line.subrange(i as int, n as int);
                proof {
                    assert(mid.len() > 0);
                    assert(mid[0] == line[i as int]);
                    assert(mid.drop_first() =~= line.subrange(i as int + 1, n as int));
                }
                let ghost tail_split = split_words(line.subrange(i as int + 1, n as int));
                proof {
                    lemma_split_words_nonempty(line.subrange(i as int + 1, n as int));
                }

                let c = op.as_str().get_char(i);
                if c == ' ' {
                    let piece = op.as_str().substring_char(start, i);
                    let ghost words_snap = words@;
                    words.push(piece.to_owned());
                    proof {
                        let with_empty = seq![Seq::<char>::empty()] + tail_split;
                        assert(split_words(mid) == with_empty);
                        assert(prepend_word(cur, split_words(mid)) =~= seq![cur] + tail_split) by {
                            assert(cur + with_empty[0] =~= cur);
                            assert(with_empty.subrange(1, with_empty.len() as int) =~= tail_split);
                        }
                        assert(line.subrange(i as int + 1, i as int + 1) =~= Seq::<char>::empty());
                        assert(prepend_word(Seq::<char>::empty(), tail_split) =~= tail_split) by {
                            assert(Seq::<char>::empty() + tail_split[0] =~= tail_split[0]);
                            assert(seq![tail_split[0]] + tail_split.subrange(
                                1,
                                tail_split.len() as int,
                            ) =~= tail_split);
                        }
                        assert(views_of(words@) =~= views_of(words_snap).push(cur));
                        assert(views_of(words_snap).push(cur) + tail_split =~= views_of(words_snap)
                            + (seq![cur] + tail_split));
                    }
                    start = i + 1;
                } else {
                    proof {
                        assert(split_words(mid) == tail_split.update(
                            0,
                            seq![line[i as int]] + tail_split[0],
                        ));
                        assert(line.subrange(start as int, i as int + 1) =~= cur.push(
                            line[i as int],
                        ));
                        assert(prepend_word(cur, split_words(mid)) =~= prepend_word(
                            cur.push(line[i as int]),
                            tail_split,
                        )) by {
                            assert(cur + (seq![line[i as int]] + tail_split[0]) =~= cur.push(
                                line[i as int],
                            ) + tail_split[0]);
                            assert(split_words(mid).subrange(1, split_words(mid).len() as int)
                                =~= tail_split.subrange(1, tail_split.len() as int));
                        }
                    }
                }
                i = i + 1;
            }

            let piece = op.as_str().substring_char(start, n);
            let ghost cur = line.subrange(start as int, n as int);
            let ghost words_snap = words@;
            words.push(piece.to_owned());
            proof {
                assert(line.subrange(n as int, n as int) =~= Seq::<char>::empty());
                assert(split_words(Seq::<char>::empty()) == seq![Seq::<char>::empty()]);
                assert(prepend_word(cur, seq![Seq::<char>::empty()]) =~= seq![cur]) by {
                    assert(cur + Seq::<char>::empty() =~= cur);
                    assert(seq![Seq::<char>::empty()].subrange(1, 1) =~= Seq::<Seq<char>>::empty());
                    assert(seq![cur + Seq::<char>::empty()] + Seq::<Seq<char>>::empty()
                        =~= seq![cur]);
                }
                assert(views_of(words@) =~= views_of(words_snap).push(cur));
                assert(views_of(words_snap) + seq![cur] =~= views_of(words@));
                assert(split_words(line) == views_of(words@));
            }

            let ghost source_snap = source@;
            source.append(&mut words);
            proof {
                assert(views_of(source@) =~= views_of(source_snap) + split_words(line));
                let remaining = opsv.subrange(k as int, opsv.len() as int);
                assert(remaining[0] == line);
                assert(remaining.drop_first() =~= opsv.subrange(k as int + 1, opsv.len() as int));
                assert(split_all(remaining) == split_words(line) + split_all(
                    opsv.subrange(k as int + 1, opsv.len() as int),
                ));
                assert(views_of(source_snap) + split_all(remaining) =~= views_of(source@)
                    + split_all(opsv.subrange(k as int + 1, opsv.len() as int)));
            }
            k = k + 1;
        }

        proof {
            assert(opsv.subrange(opsv.len() as int, opsv.len() as int)
                =~= Seq::<Seq<char>>::empty());
            assert(views_of(source@) + split_all(Seq::<Seq<char>>::empty()) =~= views_of(source@));
        }

        Parser { pos: 0, source }
    }

    /// Parses the whole word stream from the cursor on. On success the
    /// result is exactly the token stream the words denote, every
    /// immediate a nibble; on failure no partial token list is returned.
    pub fn parse(&mut self) -> (r: Result<Vec<Token>, EmulatorErr>)
        ensures
            final(self).source@ == old(self).source@,
            match r {
                Ok(tokens) => {
                    &&& parse_words(views_of(old(self).source@), old(self).pos as nat) == Some(
                        tokens@,
                    )
                    &&& forall|j: int| 0 <= j < tokens@.len() ==> token_wf(#[trigger] tokens@[j])
                },
                Err(_) => parse_words(views_of(old(self).source@), old(self).pos as nat) is None,
            },
    {
        let mut result: Vec<Token> = Vec::new();
        let ghost words = views_of(self.source@);
        let ghost start_pos = self.pos as nat;

        if self.pos >= self.source.len() {
            return Ok(result);
        }

        while self.pos < self.source.len()
            invariant
                self.source@ == old(self).source@,
                words == views_of(old(self).source@),
                start_pos == old(self).pos as nat,
                self.pos <= self.source@.len(),
                forall|j: int| 0 <= j < result@.len() ==> token_wf(#[trigger] result@[j]),
                match parse_words(words, self.pos as nat) {
                    Some(rest) => parse_words(words, start_pos) == Some(result@ + rest),
                    None => parse_words(words, start_pos) is None,
                },
            decreases self.source@.len() - self.pos,
        {
            let op = self.source[self.pos].clone();
            let ghost p = self.pos as nat;
            proof {
                assert(op@ == words[p as int]);
            }

            if str_eq(op.as_str(), "mov") {
                if self.pos + 1 >= self.source.len() {
                    return Err(EmulatorErr::new("Failed to parse mov left hand side value"));
                }
                if self.pos + 2 >= self.source.len() {
                    return Err(EmulatorErr::new("Failed to parse mov right hand side value"));
                }
                let lhs = self.source[self.pos + 1].clone();
                let rhs = self.source[self.pos + 2].clone();
                let token: Token;
                if str_eq(lhs.as_str(), "B") && str_eq(rhs.as_str(), "A") {
                    token = Token::MovBA;
                } else if str_eq(lhs.as_str(), "A") && str_eq(rhs.as_str(), "B") {
                    token = Token::MovAB;
                } else {
                    let reg = match Register::from_name(lhs.as_str()) {
                        Some(reg) => reg,
                        None => {
                            return Err(EmulatorErr::new("Failed to parse mov register operand"));
                        },
                    };
                    let im = match self.from_binary_to_decimal(rhs.as_str()) {
                        Ok(v) => v,
                        Err(err) => {
                            return Err(err);
                        },
                    };
                    token = Token::Mov(reg, im);
                }
                let ghost result_snap = result@;
                result.push(token);
                self.pos = self.pos + 3;
                proof {
                    if let Some(rest) = parse_words(words, p + 3) {
                        assert(result_snap + (seq![token] + rest) =~= result@ + rest);
                    }
                }
            } else if str_eq(op.as_str(), "add") {
                if self.pos + 1 >= self.source.len() {
                    return Err(EmulatorErr::new("Failed to parse Add left hand side value"));
                }
                if self.pos + 2 >= self.source.len() {
                    return Err(EmulatorErr::new("Failed to parse Add right hand side value"));
                }
                let lhs = self.source[self.pos + 1].clone();
                let rhs = self.source[self.pos + 2].clone();
                let reg = match Register::from_name(lhs.as_str()) {
                    Some(reg) => reg,
                    None => {
                        return Err(EmulatorErr::new("Failed to parse Add register operand"));
                    },
                };
                let im = match self.from_binary_to_decimal(rhs.as_str()) {
                    Ok(v) => v,
                    Err(err) => {
                        return Err(err);
                    },
                };
                let token = Token::Add(reg, im);
                let ghost result_snap = result@;
                result.push(token);
                self.pos = self.pos + 3;
                proof {
                    if let Some(rest) = parse_words(words, p + 3) {
                        assert(result_snap + (seq![token] + rest) =~= result@ + rest);
                    }
                }
            } else if str_eq(op.as_str(), "jmp") {
                if self.pos + 1 >= self.source.len() {
                    return Err(EmulatorErr::new("Failed to parse jmp im value"));
                }
                let operand = self.source[self.pos + 1].clone();
                let im = match self.from_binary_to_decimal(operand.as_str()) {
                    Ok(v) => v,
                    Err(err) => {
                        return Err(err);
                    },
                };
                let token = Token::Jmp(im);
                let ghost result_snap = result@;
                result.push(token);
                self.pos = self.pos + 2;
                proof {
                    if let Some(rest) = parse_words(words, p + 2) {
                        assert(result_snap + (seq![token] + rest) =~= result@ + rest);
                    }
                }
            } else if str_eq(op.as_str(), "jnc") {
                if self.pos + 1 >= self.source.len() {
                    return Err(EmulatorErr::new("Failed to parse jnc im value"));
                }
                let operand = self.source[self.pos + 1].clone();
                let im = match self.from_binary_to_decimal(operand.as_str()) {
                    Ok(v) => v,
                    Err(err) => {
                        return Err(err);
                    },
                };
                let token = Token::Jnc(im);
                let ghost result_snap = result@;
                result.push(token);
                self.pos = self.pos + 2;
                proof {
                    if let Some(rest) = parse_words(words, p + 2) {
                        assert(result_snap + (seq![token] + rest) =~= result@ + rest);
                    }
                }
            } else if str_eq(op.as_str(), "in") {
                if self.pos + 1 >= self.source.len() {
                    return Err(EmulatorErr::new("Failed to parse in register operand"));
                }
                let operand = self.source[self.pos + 1].clone();
                let reg = match Register::from_name(operand.as_str()) {
                    Some(reg) => reg,
                    None => {
                        return Err(EmulatorErr::new("Failed to parse in register operand"));
                    },
                };
                let token = Token::In(reg);
                let ghost result_snap = result@;
                result.push(token);
                self.pos = self.pos + 2;
                proof {
                    if let Some(rest) = parse_words(words, p + 2) {
                        assert(result_snap + (seq![token] + rest) =~= result@ + rest);
                    }
                }
            } else if str_eq(op.as_str(), "out") {
                if self.pos + 1 >= self.source.len() {
                    return Err(EmulatorErr::new("Failed to parse out im value"));
                }
                let operand = self.source[self.pos + 1].clone();
                let token: Token;
                if str_eq(operand.as_str(), "B") {
                    token = Token::OutB;
                } else {
                    let im = match self.from_binary_to_decimal(operand.as_str()) {
                        Ok(v) => v,
                        Err(err) => {
                            return Err(err);
                        },
                    };
                    token = Token::OutIm(im);
                }
                let ghost result_snap = result@;
                result.push(token);
                self.pos = self.pos + 2;
                proof {
                    if let Some(rest) = parse_words(words, p + 2) {
                        assert(result_snap + (seq![token] + rest) =~= result@ + rest);
                    }
                }
            } else {
                self.pos = self.pos + 1;
            }
        }

        proof {
            assert(result@ + Seq::<Token>::empty() =~= result@);
        }
        Ok(result)
    }

    /// Reads a word as a binary numeral and yields its value when the word
    /// is a nonempty string of binary digits denoting a 4-bit value;
    /// anything else is rejected.
    pub fn from_binary_to_decimal(&self, text: &str) -> (r: Result<u8, EmulatorErr>)
        ensures
            match r {
                Ok(v) => imm_of(text@) == Some(v),
                Err(_) => imm_of(text@) is None,
            },
    {
        let n = text.unicode_len();
        let mut val: u8 = 0;
        let mut i: usize = 0;
        while i < n
            invariant
                i <= n,
                n == text@.len(),
                val <= 15,
                val == bin_value(text@.subrange(0, i as int)),
                forall|j: int| 0 <= j < i ==> is_bin_digit(#[trigger] text@[j]),
            decreases n - i,
        {
            let c = text.get_char(i);
            if c != '0' && c != '1' {
                return Err(EmulatorErr::new("Failed to parse string as a binary immediate"));
            }
            let bit: u8 = if c == '1' {
                1
            } else {
                0
            };
            proof {
                assert(text@.subrange(0, i as int + 1).drop_last() =~= text@.subrange(
                    0,
                    i as int,
                ));
            }
            let nv = 2 * val + bit;
            if nv > 15 {
                proof {
                    lemma_bin_value_prefix_le(text@, i as int + 1);
                }
                return Err(EmulatorErr::new("Failed to parse string as a binary immediate"));
            }
            val = nv;
            i = i + 1;
        }
        if n == 0 {
            return Err(EmulatorErr::new("Failed to parse string as a binary immediate"));
        }
        proof {
            assert(text@.subrange(0, n as int) =~= text@);
        }
        Ok(val)
    }
}

} // verus!
