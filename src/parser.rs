//! The per-transaction inscription parser.
use vstd::prelude::*;
use vstd::utf8::{decode_utf8, decode_utf8_encode_utf8, encode_utf8, valid_utf8};
use crate::inscription::{
    classify_content, content_view, equal_bytes, starts_with_bytes, string_from_utf8,
    ContentView, Inscription, InscriptionType, InscriptionView,
};
use crate::script::{decode_script, lemma_decode_len, is_zero, is_zero_token, le_value, Instruction, ScriptReader, Token, OP_ENDIF, OP_IF};
use crate::tx::{Transaction, TxIn, TxOut};

verus! {

/// The data pushes of a token stream, in order.
pub open spec fn pushes(ts: Seq<Token>) -> Seq<Seq<u8>>
    decreases ts.len(),
{
    if ts.len() == 0 {
        Seq::empty()
    } else {
        let front = pushes(ts.drop_last());
        match ts.last() {
            Token::Push(data) => front.push(data),
            _ => front,
        }
    }
}

proof fn lemma_pushes_len(ts: Seq<Token>)
    ensures
        pushes(ts).len() <= ts.len(),
    decreases ts.len(),
{
    if ts.len() > 0 {
        lemma_pushes_len(ts.drop_last());
    }
}

/// The third of some pushes, as text, if it is valid UTF-8.
pub open spec fn third_push_text(p: Seq<Seq<u8>>) -> Option<Seq<char>> {
    if p.len() >= 3 && valid_utf8(p[2]) {
        Some(decode_utf8(p[2]))
    } else {
        None
    }
}

/// The text of a coinbase signature script: its third push, if that is valid UTF-8.
pub open spec fn coinbase_text(script: Seq<u8>) -> Option<Seq<char>> {
    third_push_text(pushes(decode_script(script)))
}

pub open spec fn string_view(s: Option<String>) -> Option<Seq<char>> {
    match s {
        Some(s) => Some(s@),
        None => None,
    }
}

/// The envelope body: content-type pushes until a zero follows one of them,
/// then content pushes, until `OP_ENDIF`, a malformed item or the end.
/// Other opcodes are skipped.
pub open spec fn scan_envelope(ts: Seq<Token>, reading_type: bool, ct: Seq<u8>, c: Seq<u8>) -> (Seq<u8>, Seq<u8>)
    decreases ts.len(),
{
    if ts.len() == 0 {
        (ct, c)
    } else {
        match ts[0] {
            Token::Malformed => (ct, c),
            Token::Op(op) => {
                if op == OP_ENDIF {
                    (ct, c)
                } else {
                    scan_envelope(ts.drop_first(), reading_type, ct, c)
                }
            },
            Token::Push(data) => {
                if !reading_type {
                    scan_envelope(ts.drop_first(), false, ct, c + data)
                } else if ts.len() > 1 && is_zero_token(ts[1]) {
                    scan_envelope(ts.skip(2), false, ct + data, c)
                } else {
                    scan_envelope(ts.drop_first(), true, ct + data, c)
                }
            },
        }
    }
}

/// The content type and content of an envelope that opens the stream with a
/// zero and `OP_IF`.
pub open spec fn envelope(ts: Seq<Token>) -> Option<(Seq<u8>, Seq<u8>)> {
    if ts.len() >= 2 && is_zero_token(ts[0]) && ts[1] == Token::Op(OP_IF) {
        Some(scan_envelope(ts.skip(2), true, Seq::empty(), Seq::empty()))
    } else {
        None
    }
}

/// The inscription content of a public-key script.
pub open spec fn script_content(script: Seq<u8>) -> Option<ContentView> {
    match envelope(decode_script(script)) {
        Some(body) => classify_content(body.0, body.1),
        None => None,
    }
}

/// The text of the first coinbase input that yields one.
pub open spec fn first_coinbase_text(inputs: Seq<TxIn>) -> Option<Seq<char>>
    decreases inputs.len(),
{
    if inputs.len() == 0 {
        None
    } else if inputs[0].is_coinbase && coinbase_text(inputs[0].script_sig@).is_some() {
        coinbase_text(inputs[0].script_sig@)
    } else {
        first_coinbase_text(inputs.drop_first())
    }
}

/// The content of the first output that yields one.
pub open spec fn first_output_content(outputs: Seq<TxOut>) -> Option<ContentView>
    decreases outputs.len(),
{
    if outputs.len() == 0 {
        None
    } else if script_content(outputs[0].script_pubkey@).is_some() {
        script_content(outputs[0].script_pubkey@)
    } else {
        first_output_content(outputs.drop_first())
    }
}

/// The inscription of a transaction: coinbase text first, then the outputs.
pub open spec fn transaction_inscription(tx: Transaction) -> Option<InscriptionView> {
    match first_coinbase_text(tx.input@) {
        Some(text) => Some(InscriptionView { txid: tx.txid@, content: ContentView::Text(text) }),
        None => match first_output_content(tx.output@) {
            Some(content) => Some(InscriptionView { txid: tx.txid@, content }),
            None => None,
        },
    }
}

pub open spec fn inscription_view(r: Option<Inscription>) -> Option<InscriptionView> {
    match r {
        Some(i) => Some(i@),
        None => None,
    }
}

/// Whether a zero is directly followed by `OP_IF` anywhere in the stream.
pub open spec fn has_start_sequence(ts: Seq<Token>) -> bool {
    exists|i: int| 0 <= i && i + 1 < ts.len() && is_zero_token(#[trigger] ts[i]) && ts[i + 1] == Token::Op(OP_IF)
}

proof fn lemma_no_coinbase_no_text(inputs: Seq<TxIn>)
    requires
        forall|i: int| 0 <= i < inputs.len() ==> !(#[trigger] inputs[i]).is_coinbase,
    ensures
        first_coinbase_text(inputs).is_none(),
    decreases inputs.len(),
{
    if inputs.len() > 0 {
        assert(!inputs[0].is_coinbase);
        assert forall|i: int| 0 <= i < inputs.drop_first().len() implies !(#[trigger] inputs.drop_first()[i]).is_coinbase by {
            assert(inputs.drop_first()[i] == inputs[i + 1]);
        }
        lemma_no_coinbase_no_text(inputs.drop_first());
    }
}

proof fn lemma_no_start_no_content(outputs: Seq<TxOut>)
    requires
        forall|j: int| 0 <= j < outputs.len() ==> !has_start_sequence(decode_script((#[trigger] outputs[j]).script_pubkey@)),
    ensures
        first_output_content(outputs).is_none(),
    decreases outputs.len(),
{
    if outputs.len() > 0 {
        let ts = decode_script(outputs[0].script_pubkey@);
        assert(!has_start_sequence(ts));
        if ts.len() >= 2 && is_zero_token(ts[0]) && ts[1] == Token::Op(OP_IF) {
            assert(has_start_sequence(ts));
        }
        assert forall|j: int| 0 <= j < outputs.drop_first().len() implies !has_start_sequence(decode_script((#[trigger] outputs.drop_first()[j]).script_pubkey@)) by {
            assert(outputs.drop_first()[j] == outputs[j + 1]);
        }
        lemma_no_start_no_content(outputs.drop_first());
    }
}

/// A transaction with no coinbase input, none of whose outputs holds a zero
/// followed by `OP_IF`, carries no inscription.
pub proof fn lemma_no_envelope_no_inscription(tx: Transaction)
    requires
        forall|i: int| 0 <= i < tx.input@.len() ==> !(#[trigger] tx.input@[i]).is_coinbase,
        forall|j: int| 0 <= j < tx.output@.len() ==> !has_start_sequence(decode_script((#[trigger] tx.output@[j]).script_pubkey@)),
    ensures
        transaction_inscription(tx).is_none(),
{
    lemma_no_coinbase_no_text(tx.input@);
    lemma_no_start_no_content(tx.output@);
}

/// Classification is a function of the content type and content alone:
/// equal inputs give equal results.
pub proof fn lemma_classify_deterministic(ct1: Seq<u8>, c1: Seq<u8>, ct2: Seq<u8>, c2: Seq<u8>)
    requires
        ct1 == ct2,
        c1 == c2,
    ensures
        classify_content(ct1, c1) == classify_content(ct2, c2),
{
}

/// Text from the classifier is the content it came from: its UTF-8
/// encoding is exactly the content bytes.
pub proof fn lemma_classified_text_encodes_content(ct: Seq<u8>, c: Seq<u8>)
    ensures
        match classify_content(ct, c) {
            Some(ContentView::Text(s)) => encode_utf8(s) == c,
            _ => true,
        },
{
    if valid_utf8(c) {
        decode_utf8_encode_utf8(c);
    }
}

/// Coinbase text is the third push it came from: its UTF-8 encoding is
/// exactly those bytes.
pub proof fn lemma_coinbase_text_encodes_push(script: Seq<u8>)
    ensures
        match coinbase_text(script) {
            Some(s) => encode_utf8(s) == pushes(decode_script(script))[2],
            None => true,
        },
{
    let p = pushes(decode_script(script));
    if p.len() >= 3 && valid_utf8(p[2]) {
        decode_utf8_encode_utf8(p[2]);
    }
}

/// Any zero form may open an envelope: `OP_0` / `OP_FALSE` and the empty
/// push give the same result.
pub proof fn lemma_lead_in_zero_forms(z1: Token, z2: Token, ts: Seq<Token>)
    requires
        is_zero_token(z1),
        is_zero_token(z2),
    ensures
        envelope(seq![z1] + ts) == envelope(seq![z2] + ts),
{
    if ts.len() >= 1 {
        assert((seq![z1] + ts).skip(2) =~= ts.drop_first());
        assert((seq![z2] + ts).skip(2) =~= ts.drop_first());
    }
}

/// Any zero form may separate the content type from the content.
pub proof fn lemma_separator_zero_forms(data: Seq<u8>, z1: Token, z2: Token, ts: Seq<Token>, ct: Seq<u8>, c: Seq<u8>)
    requires
        is_zero_token(z1),
        is_zero_token(z2),
    ensures
        scan_envelope(seq![Token::Push(data), z1] + ts, true, ct, c)
            == scan_envelope(seq![Token::Push(data), z2] + ts, true, ct, c),
{
    assert((seq![Token::Push(data), z1] + ts).skip(2) =~= ts);
    assert((seq![Token::Push(data), z2] + ts).skip(2) =~= ts);
}

/// In script bytes, `OP_0` and the explicit empty push `OP_PUSHDATA1 0x00`
/// decode alike.
pub proof fn lemma_empty_push_encodings(rest: Seq<u8>)
    ensures
        decode_script(seq![0x00u8] + rest) == decode_script(seq![0x4cu8, 0x00u8] + rest),
{
    let a = seq![0x00u8] + rest;
    let b = seq![0x4cu8, 0x00u8] + rest;
    assert(a.drop_first() =~= rest);
    assert(a.drop_first().take(0) =~= Seq::<u8>::empty());
    assert(a.drop_first().skip(0) =~= rest);
    assert(b.drop_first().take(1) =~= seq![0x00u8]);
    assert(le_value(seq![0x00u8].drop_first()) == 0);
    assert(le_value(seq![0x00u8]) == 0);
    assert(b.drop_first().skip(1) =~= rest);
    assert(rest.take(0) =~= Seq::<u8>::empty());
    assert(rest.skip(0) =~= rest);
}

/// A script with exactly two pushes yields no coinbase text.
pub proof fn lemma_two_pushes_no_text(script: Seq<u8>)
    requires
        pushes(decode_script(script)).len() == 2,
    ensures
        coinbase_text(script).is_none(),
{
}

/// Finds inscriptions in transactions. It holds no state.
pub struct InscriptionParser;

impl InscriptionParser {
    pub fn new() -> (r: Self) {
        InscriptionParser
    }

    /// The inscription of `tx`, if any: the text of the first coinbase input
    /// that has some, else the content of the first output that has some.
    pub fn parse_transaction(&self, tx: &Transaction) -> (r: Option<Inscription>)
        ensures
            inscription_view(r) == transaction_inscription(*tx),
            r.is_some() ==> r.unwrap().txid@ == tx.txid@,
    {
        let mut i: usize = 0;
        assert(tx.input@.skip(0) =~= tx.input@);
        while i < tx.input.len()
            invariant
                i <= tx.input@.len(),
                first_coinbase_text(tx.input@) == first_coinbase_text(tx.input@.skip(i as int)),
            decreases tx.input@.len() - i,
        {
            let input = &tx.input[i];
            assert(tx.input@.skip(i as int).drop_first() =~= tx.input@.skip(i + 1));
            if input.is_coinbase {
                match self.extract_text_from_script(input.script_sig.as_slice()) {
                    Some(text) => {
                        return Some(Inscription { txid: tx.txid.clone(), content: InscriptionType::Text(text) });
                    },
                    None => {},
                }
            }
            i = i + 1;
        }
        let mut j: usize = 0;
        assert(tx.output@.skip(0) =~= tx.output@);
        while j < tx.output.len()
            invariant
                j <= tx.output@.len(),
                first_coinbase_text(tx.input@).is_none(),
                first_output_content(tx.output@) == first_output_content(tx.output@.skip(j as int)),
            decreases tx.output@.len() - j,
        {
            let output = &tx.output[j];
            assert(tx.output@.skip(j as int).drop_first() =~= tx.output@.skip(j + 1));
            match self.parse_script(output.script_pubkey.as_slice()) {
                Some(content) => {
                    return Some(Inscription { txid: tx.txid.clone(), content });
                },
                None => {},
            }
            j = j + 1;
        }
        None
    }

    /// The third push of a coinbase signature script, if it is valid UTF-8.
    /// Opcodes do not count; a malformed push ends the script.
    pub fn extract_text_from_script(&self, script: &[u8]) -> (r: Option<String>)
        ensures
            string_view(r) == coinbase_text(script@),
    {
        let mut reader = ScriptReader::new(script);
        let ghost ts = decode_script(script@);
        proof {
            lemma_decode_len(script@);
            assert(script.len() == script@.len());
        }
        let mut found: Option<String> = None;
        let mut push_count: usize = 0;
        let ghost mut k: int = 0;
        loop
            invariant
                reader.wf(),
                0 <= k <= ts.len(),
                ts.len() <= script@.len() <= usize::MAX,
                reader.remaining() == ts.skip(k),
                push_count == pushes(ts.take(k)).len(),
                string_view(found) == third_push_text(pushes(ts.take(k))),
            ensures
                k == ts.len(),
                string_view(found) == third_push_text(pushes(ts.take(k))),
            decreases ts.len() - k,
        {
            let item = match reader.next() {
                Some(item) => item,
                None => break,
            };
            proof {
                assert(ts.take(k + 1).drop_last() =~= ts.take(k));
                assert(ts.take(k + 1).last() == ts[k]);
                assert(ts.skip(k).drop_first() =~= ts.skip(k + 1));
                lemma_pushes_len(ts.take(k));
                k = k + 1;
            }
            match item {
                Ok(Instruction::PushBytes(data)) => {
                    push_count = push_count + 1;
                    if push_count == 3 {
                        found = string_from_utf8(data);
                        assert(pushes(ts.take(k))[2] == data@);
                    }
                },
                _ => {},
            }
        }
        assert(ts.take(ts.len() as int) =~= ts);
        found
    }

    /// The inscription content of a public-key script: an envelope that
    /// opens with a zero and `OP_IF`, classified.
    pub fn parse_script(&self, script: &[u8]) -> (r: Option<InscriptionType>)
        ensures
            content_view(r) == script_content(script@),
    {
        let mut instructions = ScriptReader::new(script);
        let ghost ts = decode_script(script@);
        let first = match instructions.next() {
            Some(item) => item,
            None => return None,
        };
        let second = match instructions.next() {
            Some(item) => item,
            None => return None,
        };
        assert(ts.drop_first().drop_first() =~= ts.skip(2));
        let opens = match &second {
            Ok(Instruction::Op(op)) => is_zero(&first) && *op == OP_IF,
            _ => false,
        };
        if opens {
            self.parse_inscription_content(&mut instructions)
        } else {
            None
        }
    }

    /// Reads an envelope body from `instructions` and classifies it.
    /// Content-type pushes come first; a zero right after one of them
    /// switches to content pushes. `OP_ENDIF`, a malformed item or the end
    /// of the script closes the body; other opcodes are skipped.
    pub fn parse_inscription_content(&self, instructions: &mut ScriptReader) -> (r: Option<InscriptionType>)
        requires
            old(instructions).wf(),
        ensures
            ({
                let body = scan_envelope(old(instructions).remaining(), true, Seq::empty(), Seq::empty());
                content_view(r) == classify_content(body.0, body.1)
            }),
    {
        let ghost start = instructions.remaining();
        let mut content_type: Vec<u8> = Vec::new();
        let mut content: Vec<u8> = Vec::new();
        let mut reading_content_type = true;
        loop
            invariant_except_break
                scan_envelope(start, true, Seq::empty(), Seq::empty())
                    == scan_envelope(instructions.remaining(), reading_content_type, content_type@, content@),
            invariant
                instructions.wf(),
            ensures
                scan_envelope(start, true, Seq::empty(), Seq::empty()) == (content_type@, content@),
            decreases instructions.remaining().len(),
        {
            let ghost rest = instructions.remaining();
            let instruction = match instructions.next() {
                Some(Ok(instruction)) => instruction,
                _ => break,
            };
            match instruction {
                Instruction::Op(op) => {
                    if op == OP_ENDIF {
                        break;
                    }
                },
                Instruction::PushBytes(data) => {
                    if reading_content_type {
                        let ghost before = content_type@;
                        content_type.extend_from_slice(data.as_slice());
                        assert(content_type@ =~= before + data@);
                        let separator = match instructions.peek() {
                            Some(next) => is_zero(next),
                            None => false,
                        };
                        if separator {
                            assert(rest.drop_first().drop_first() =~= rest.skip(2));
                            instructions.next();
                            reading_content_type = false;
                        }
                    } else {
                        let ghost before = content@;
                        content.extend_from_slice(data.as_slice());
                        assert(content@ =~= before + data@);
                    }
                },
            }
        }
        self.classify_inscription(content_type, content)
    }

    /// Classifies raw inscription content by its declared content type:
    /// `text/plain;charset=utf-8` with UTF-8 content is text, a type that
    /// begins with `image/` is an image, any other UTF-8 type is unknown.
    pub fn classify_inscription(&self, content_type: Vec<u8>, content: Vec<u8>) -> (r: Option<InscriptionType>)
        ensures
            content_view(r) == classify_content(content_type@, content@),
    {
        let is_text = equal_bytes(content_type.as_slice(), "text/plain;charset=utf-8".as_bytes());
        let is_image = starts_with_bytes(content_type.as_slice(), "image/".as_bytes());
        let mime_type = match string_from_utf8(content_type) {
            Some(m) => m,
            None => return None,
        };
        if is_text {
            match string_from_utf8(content) {
                Some(text) => Some(InscriptionType::Text(text)),
                None => None,
            }
        } else if is_image {
            Some(InscriptionType::Image { mime_type, data: content })
        } else {
            Some(InscriptionType::Unknown(content))
        }
    }
}

} // verus!
