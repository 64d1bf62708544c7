//! The script reader: raw script bytes as a sequence of typed instructions.
use vstd::prelude::*;

verus! {

/// The byte of `OP_0`, also written `OP_FALSE`.
pub const OP_0: u8 = 0x00;

/// The byte of `OP_IF`.
pub const OP_IF: u8 = 0x63;

/// The byte of `OP_ENDIF`.
pub const OP_ENDIF: u8 = 0x68;

/// One decoded script instruction.
#[derive(Debug, PartialEq, Eq)]
pub enum Instruction {
    /// An opcode that carries no data.
    Op(u8),
    /// A data push, possibly empty.
    PushBytes(Vec<u8>),
}

/// A malformed instruction: a push whose length runs past the end of the script.
#[derive(Debug, Clone, Copy, PartialEq, Eq)]
pub enum DecodeError {
    EarlyEndOfScript,
}

/// What one item of a decoded script stands for.
pub enum Token {
    Op(u8),
    Push(Seq<u8>),
    Malformed,
}

pub open spec fn token_of(item: Result<Instruction, DecodeError>) -> Token {
    match item {
        Ok(Instruction::Op(op)) => Token::Op(op),
        Ok(Instruction::PushBytes(data)) => Token::Push(data@),
        Err(_) => Token::Malformed,
    }
}

pub open spec fn tokens(items: Seq<Result<Instruction, DecodeError>>) -> Seq<Token> {
    items.map_values(|item: Result<Instruction, DecodeError>| token_of(item))
}

/// The little-endian number held by `b`.
pub open spec fn le_value(b: Seq<u8>) -> nat
    decreases b.len(),
{
    if b.len() == 0 {
        0
    } else {
        b[0] as nat + 256 * le_value(b.drop_first())
    }
}

/// How many length bytes follow `OP_PUSHDATA1`, `OP_PUSHDATA2` or `OP_PUSHDATA4`.
pub open spec fn length_width(op: u8) -> nat {
    if op == 0x4c {
        1
    } else if op == 0x4d {
        2
    } else {
        4
    }
}

/// The instruction stream of a script. Bytes `0x00..=0x4b` push that many
/// following bytes (so `OP_0` pushes the empty string); `OP_PUSHDATA1/2/4`
/// read a 1, 2 or 4 byte little-endian length first; every other byte is an
/// opcode. A push that runs past the end yields one malformed item, which
/// ends the stream.
pub open spec fn decode_script(b: Seq<u8>) -> Seq<Token>
    decreases b.len(),
{
    if b.len() == 0 {
        Seq::empty()
    } else {
        let op = b[0];
        let rest = b.drop_first();
        if op <= 0x4b {
            if rest.len() >= op as nat {
                seq![Token::Push(rest.take(op as int))] + decode_script(rest.skip(op as int))
            } else {
                seq![Token::Malformed]
            }
        } else if 0x4c <= op <= 0x4e {
            let w = length_width(op);
            if rest.len() < w {
                seq![Token::Malformed]
            } else {
                let n = le_value(rest.take(w as int));
                let data = rest.skip(w as int);
                if data.len() >= n {
                    seq![Token::Push(data.take(n as int))] + decode_script(data.skip(n as int))
                } else {
                    seq![Token::Malformed]
                }
            }
        } else {
            seq![Token::Op(op)] + decode_script(rest)
        }
    }
}

pub proof fn lemma_decode_len(b: Seq<u8>)
    ensures
        decode_script(b).len() <= b.len(),
    decreases b.len(),
{
    if b.len() > 0 {
        let op = b[0];
        let rest = b.drop_first();
        if op <= 0x4b {
            if rest.len() >= op as nat {
                lemma_decode_len(rest.skip(op as int));
            }
        } else if 0x4c <= op <= 0x4e {
            let w = length_width(op);
            if rest.len() >= w {
                let n = le_value(rest.take(w as int));
                let data = rest.skip(w as int);
                if data.len() >= n {
                    lemma_decode_len(data.skip(n as int));
                }
            }
        } else {
            lemma_decode_len(rest);
        }
    }
}

/// The zero forms: `OP_0` / `OP_FALSE` as an opcode, or an empty push.
pub open spec fn is_zero_token(t: Token) -> bool {
    match t {
        Token::Op(op) => op == OP_0,
        Token::Push(data) => data.len() == 0,
        Token::Malformed => false,
    }
}

/// Relies on bitcoin's `Script::instructions` (minimal pushes not enforced):
/// it yields the instructions that `decode_script` describes and stops after
/// its first error.
#[verifier::external_body]
pub(crate) fn script_instructions(script: &[u8]) -> (r: Vec<Result<Instruction, DecodeError>>)
    ensures
        tokens(r@) == decode_script(script@),
{
    bitcoin::Script::from_bytes(script).instructions().map(|item| match item {
        Ok(bitcoin::script::Instruction::Op(op)) => Ok(Instruction::Op(op.to_u8())),
        Ok(bitcoin::script::Instruction::PushBytes(p)) => Ok(Instruction::PushBytes(p.as_bytes().to_vec())),
        Err(_) => Err(DecodeError::EarlyEndOfScript),
    }).collect()
}

/// A forward reader over the instructions of a script, with one item of
/// lookahead.
pub struct ScriptReader {
    items: Vec<Result<Instruction, DecodeError>>,
    pos: usize,
}

impl ScriptReader {
    /// What is left to read.
    pub closed spec fn remaining(&self) -> Seq<Token> {
        tokens(self.items@).skip(self.pos as int)
    }

    pub closed spec fn wf(&self) -> bool {
        self.pos <= self.items@.len()
    }

    /// A reader at the start of `script`.
    pub fn new(script: &[u8]) -> (r: Self)
        ensures
            r.wf(),
            r.remaining() == decode_script(script@),
    {
        let items = script_instructions(script);
        assert(tokens(items@).skip(0) =~= tokens(items@));
        ScriptReader { items, pos: 0 }
    }

    /// The next item, left in place.
    pub fn peek(&self) -> (r: Option<&Result<Instruction, DecodeError>>)
        requires
            self.wf(),
        ensures
            r.is_none() == (self.remaining().len() == 0),
            r.is_some() ==> token_of(*r.unwrap()) == self.remaining()[0],
    {
        if self.pos < self.items.len() {
            Some(&self.items[self.pos])
        } else {
            None
        }
    }

    /// The next item, consumed.
    pub fn next(&mut self) -> (r: Option<Result<Instruction, DecodeError>>)
        requires
            old(self).wf(),
        ensures
            final(self).wf(),
            old(self).remaining().len() == 0 ==> r.is_none() && final(self).remaining() == old(self).remaining(),
            old(self).remaining().len() > 0 ==> r.is_some() && token_of(r.unwrap()) == old(self).remaining()[0]
                && final(self).remaining() == old(self).remaining().drop_first(),
    {
        if self.pos < self.items.len() {
            let ghost before = tokens(self.items@);
            let mut item = Err(DecodeError::EarlyEndOfScript);
            std::mem::swap(&mut item, &mut self.items[self.pos]);
            self.pos = self.pos + 1;
            assert(tokens(self.items@).skip(self.pos as int) =~= before.skip(self.pos - 1).drop_first());
            Some(item)
        } else {
            None
        }
    }
}

/// Whether an item is one of the zero forms.
pub fn is_zero(item: &Result<Instruction, DecodeError>) -> (r: bool)
    ensures
        r == is_zero_token(token_of(*item)),
{
    match item {
        Ok(Instruction::Op(op)) => *op == OP_0,
        Ok(Instruction::PushBytes(data)) => data.len() == 0,
        Err(_) => false,
    }
}

} // verus!
