use bitcoin::blockdata::opcodes::all;
use bitcoin::blockdata::script::{Builder, PushBytes};
use bitcoin::opcodes::{OP_0, OP_FALSE};
use inscription_scanner::inscription::{Inscription, InscriptionType};
use inscription_scanner::parser::InscriptionParser;
use inscription_scanner::script::{DecodeError, Instruction, ScriptReader};
use inscription_scanner::tx::{Transaction, TxIn, TxOut};
use serde_json::Value;

const GENESIS_TEXT: &str = "The Times 03/Jan/2009 Chancellor on brink of second bailout for banks";

fn push(builder: Builder, data: &[u8]) -> Builder {
    let bytes: &PushBytes = data.try_into().unwrap();
    builder.push_slice(bytes)
}

fn to_library(tx: &bitcoin::Transaction) -> Transaction {
    Transaction {
        txid: tx.txid().to_string(),
        input: tx
            .input
            .iter()
            .map(|i| TxIn { is_coinbase: i.previous_output.is_null(), script_sig: i.script_sig.as_bytes().to_vec() })
            .collect(),
        output: tx
            .output
            .iter()
            .map(|o| TxOut { value: o.value, script_pubkey: o.script_pubkey.as_bytes().to_vec() })
            .collect(),
    }
}

fn coinbase_tx(script: bitcoin::ScriptBuf) -> bitcoin::Transaction {
    bitcoin::Transaction {
        version: 1,
        lock_time: bitcoin::locktime::absolute::LockTime::ZERO,
        input: vec![bitcoin::TxIn {
            previous_output: bitcoin::OutPoint::null(),
            script_sig: script,
            sequence: bitcoin::Sequence::MAX,
            witness: bitcoin::Witness::default(),
        }],
        output: vec![],
    }
}

fn output_tx(script: bitcoin::ScriptBuf) -> bitcoin::Transaction {
    bitcoin::Transaction {
        version: 1,
        lock_time: bitcoin::locktime::absolute::LockTime::ZERO,
        input: vec![],
        output: vec![bitcoin::TxOut { value: 0, script_pubkey: script }],
    }
}

fn output_only(script: Vec<u8>) -> Transaction {
    Transaction { txid: "00".repeat(32), input: vec![], output: vec![TxOut { value: 0, script_pubkey: script }] }
}

fn envelope(lead: bitcoin::opcodes::All, content_type: &[u8], sep: bitcoin::opcodes::All, content: &[u8]) -> bitcoin::ScriptBuf {
    let b = Builder::new().push_opcode(lead).push_opcode(all::OP_IF);
    let b = push(b, content_type).push_opcode(sep);
    push(b, content).push_opcode(all::OP_ENDIF).into_script()
}

fn to_json(ins: &Inscription) -> String {
    let mut content = serde_json::Map::new();
    match &ins.content {
        InscriptionType::Text(t) => {
            content.insert("Text".to_string(), Value::String(t.clone()));
        }
        InscriptionType::Image { mime_type, data } => {
            let mut fields = serde_json::Map::new();
            fields.insert("mime_type".to_string(), Value::String(mime_type.clone()));
            fields.insert("data".to_string(), Value::Array(data.iter().map(|b| Value::from(*b)).collect()));
            content.insert("Image".to_string(), Value::Object(fields));
        }
        InscriptionType::Unknown(data) => {
            content.insert("Unknown".to_string(), Value::Array(data.iter().map(|b| Value::from(*b)).collect()));
        }
    }
    let mut m = serde_json::Map::new();
    m.insert("txid".to_string(), Value::String(ins.txid.clone()));
    m.insert("content".to_string(), Value::Object(content));
    serde_json::to_string(&Value::Object(m)).unwrap()
}

fn bytes_of(v: &Value) -> Vec<u8> {
    v.as_array().unwrap().iter().map(|b| b.as_u64().unwrap() as u8).collect()
}

fn from_json(s: &str) -> Inscription {
    let v: Value = serde_json::from_str(s).unwrap();
    let txid = v["txid"].as_str().unwrap().to_string();
    let c = v["content"].as_object().unwrap();
    let content = if let Some(t) = c.get("Text") {
        InscriptionType::Text(t.as_str().unwrap().to_string())
    } else if let Some(i) = c.get("Image") {
        InscriptionType::Image { mime_type: i["mime_type"].as_str().unwrap().to_string(), data: bytes_of(&i["data"]) }
    } else {
        InscriptionType::Unknown(bytes_of(&c["Unknown"]))
    };
    Inscription { txid, content }
}

#[test]
fn test_coinbase_text_extraction() {
    let parser = InscriptionParser::new();
    let script = push(push(push(Builder::new(), b"a"), b"b"), GENESIS_TEXT.as_bytes()).into_script();
    let tx = to_library(&coinbase_tx(script));
    let inscription = parser.parse_transaction(&tx).unwrap();
    if let InscriptionType::Text(text) = inscription.content {
        assert_eq!(text, "The Times 03/Jan/2009 Chancellor on brink of second bailout for banks");
    } else {
        panic!("Expected text inscription from coinbase");
    }
}

#[test]
fn test_inscription_parsing() {
    let parser = InscriptionParser::new();

    let script = envelope(OP_FALSE, b"text/plain;charset=utf-8", OP_0, b"Hello, Bitcoin!");
    let tx = to_library(&output_tx(script));
    let inscription = parser.parse_transaction(&tx).unwrap();
    match inscription.content {
        InscriptionType::Text(text) => assert_eq!(text, "Hello, Bitcoin!"),
        _ => panic!("Expected text inscription"),
    }

    let script = envelope(OP_0, b"text/plain;charset=utf-8", OP_0, b"Hello, Bitcoin!");
    let tx = to_library(&output_tx(script));
    let inscription = parser.parse_transaction(&tx).unwrap();
    if let InscriptionType::Text(text) = &inscription.content {
        assert_eq!(text, "Hello, Bitcoin!");
    } else {
        panic!("Expected text inscription");
    }

    let json = to_json(&inscription);
    let deserialized = from_json(&json);
    assert_eq!(deserialized.txid, inscription.txid);
    if let (InscriptionType::Text(written), InscriptionType::Text(read)) = (&inscription.content, &deserialized.content) {
        assert_eq!(written, read);
    } else {
        panic!("Expected text inscriptions");
    }
}

#[test]
fn inscription_txid_is_transaction_txid() {
    let parser = InscriptionParser::new();
    let btx = output_tx(envelope(OP_FALSE, b"image/png", OP_0, &[0x89, 0x50, 0x4E, 0x47]));
    let tx = to_library(&btx);
    let inscription = parser.parse_transaction(&tx).unwrap();
    assert_eq!(inscription.txid, btx.txid().to_string());
    assert_eq!(inscription.txid.len(), 64);
}

#[test]
fn scenario_text_with_op_false_lead_in() {
    let parser = InscriptionParser::new();
    let tx = to_library(&output_tx(envelope(OP_FALSE, b"text/plain;charset=utf-8", OP_0, b"Hello, Bitcoin!")));
    assert_eq!(parser.parse_transaction(&tx).unwrap().content, InscriptionType::Text("Hello, Bitcoin!".to_string()));
}

#[test]
fn scenario_text_with_op_0_lead_in() {
    let parser = InscriptionParser::new();
    let tx = to_library(&output_tx(envelope(OP_0, b"text/plain;charset=utf-8", OP_FALSE, b"Hello, Bitcoin!")));
    assert_eq!(parser.parse_transaction(&tx).unwrap().content, InscriptionType::Text("Hello, Bitcoin!".to_string()));
}

#[test]
fn scenario_png_image() {
    let parser = InscriptionParser::new();
    let tx = to_library(&output_tx(envelope(OP_FALSE, b"image/png", OP_0, &[0x89, 0x50, 0x4E, 0x47])));
    assert_eq!(
        parser.parse_transaction(&tx).unwrap().content,
        InscriptionType::Image { mime_type: "image/png".to_string(), data: vec![0x89, 0x50, 0x4E, 0x47] }
    );
}

#[test]
fn scenario_unknown_json() {
    let parser = InscriptionParser::new();
    let tx = to_library(&output_tx(envelope(OP_FALSE, b"application/json", OP_0, b"{}")));
    assert_eq!(parser.parse_transaction(&tx).unwrap().content, InscriptionType::Unknown(vec![0x7B, 0x7D]));
}

#[test]
fn scenario_lead_in_not_zero() {
    let parser = InscriptionParser::new();
    let b = push(Builder::new(), b"hello").push_opcode(all::OP_IF);
    let script = push(push(b, b"text/plain;charset=utf-8").push_opcode(OP_0), b"x").push_opcode(all::OP_ENDIF).into_script();
    assert!(parser.parse_transaction(&to_library(&output_tx(script))).is_none());
}

#[test]
fn empty_script_has_no_inscription() {
    let parser = InscriptionParser::new();
    assert!(parser.parse_script(&[]).is_none());
    assert!(parser.extract_text_from_script(&[]).is_none());
    let tx = Transaction {
        txid: "ab".repeat(32),
        input: vec![TxIn { is_coinbase: true, script_sig: vec![] }],
        output: vec![TxOut { value: 0, script_pubkey: vec![] }],
    };
    assert!(parser.parse_transaction(&tx).is_none());
}

#[test]
fn bare_envelope_is_unknown_empty() {
    let parser = InscriptionParser::new();
    assert_eq!(parser.parse_script(&[0x00, 0x63, 0x68]), Some(InscriptionType::Unknown(vec![])));
    let tx = output_only(vec![0x00, 0x63, 0x68]);
    assert_eq!(parser.parse_transaction(&tx).unwrap().content, InscriptionType::Unknown(vec![]));
}

#[test]
fn zero_forms_are_interchangeable() {
    let parser = InscriptionParser::new();
    let mut body = vec![24u8];
    body.extend_from_slice(b"text/plain;charset=utf-8");
    let content = b"zero";
    let zeros: [&[u8]; 3] = [&[0x00], &[0x4c, 0x00], &[0x4d, 0x00, 0x00]];
    for lead in zeros.iter() {
        for sep in zeros.iter() {
            let mut script = lead.to_vec();
            script.push(0x63);
            script.extend_from_slice(&body);
            script.extend_from_slice(sep);
            script.push(content.len() as u8);
            script.extend_from_slice(content);
            script.push(0x68);
            assert_eq!(parser.parse_script(&script), Some(InscriptionType::Text("zero".to_string())));
        }
    }
}

#[test]
fn coinbase_with_two_pushes_has_no_text() {
    let parser = InscriptionParser::new();
    let script = push(push(Builder::new(), b"a"), GENESIS_TEXT.as_bytes()).into_script();
    assert!(parser.extract_text_from_script(script.as_bytes()).is_none());
    assert!(parser.parse_transaction(&to_library(&coinbase_tx(script))).is_none());
}

#[test]
fn coinbase_third_push_must_be_utf8() {
    let parser = InscriptionParser::new();
    let script = push(push(push(Builder::new(), b"a"), b"b"), &[0xff, 0xfe]).into_script();
    assert!(parser.extract_text_from_script(script.as_bytes()).is_none());
    let script = push(push(push(push(Builder::new(), b"a"), b"b"), b"third"), b"fourth").into_script();
    assert_eq!(parser.extract_text_from_script(script.as_bytes()), Some("third".to_string()));
}

#[test]
fn coinbase_count_skips_opcodes() {
    let parser = InscriptionParser::new();
    let b = push(Builder::new(), b"a").push_opcode(all::OP_DUP);
    let script = push(push(b, b"b").push_opcode(all::OP_DROP), b"text").into_script();
    assert_eq!(parser.extract_text_from_script(script.as_bytes()), Some("text".to_string()));
}

#[test]
fn non_coinbase_input_is_not_read() {
    let parser = InscriptionParser::new();
    let script = push(push(push(Builder::new(), b"a"), b"b"), b"c").into_script();
    let tx = Transaction {
        txid: "cd".repeat(32),
        input: vec![TxIn { is_coinbase: false, script_sig: script.as_bytes().to_vec() }],
        output: vec![],
    };
    assert!(parser.parse_transaction(&tx).is_none());
}

#[test]
fn inputs_come_before_outputs() {
    let parser = InscriptionParser::new();
    let sig = push(push(push(Builder::new(), b"a"), b"b"), b"from input").into_script();
    let out = envelope(OP_FALSE, b"text/plain;charset=utf-8", OP_0, b"from output");
    let tx = Transaction {
        txid: "ef".repeat(32),
        input: vec![TxIn { is_coinbase: true, script_sig: sig.as_bytes().to_vec() }],
        output: vec![TxOut { value: 0, script_pubkey: out.as_bytes().to_vec() }],
    };
    assert_eq!(parser.parse_transaction(&tx).unwrap().content, InscriptionType::Text("from input".to_string()));
}

#[test]
fn first_inscribed_output_wins() {
    let parser = InscriptionParser::new();
    let first = envelope(OP_FALSE, b"text/plain;charset=utf-8", OP_0, b"first");
    let second = envelope(OP_FALSE, b"text/plain;charset=utf-8", OP_0, b"second");
    let tx = Transaction {
        txid: "12".repeat(32),
        input: vec![],
        output: vec![
            TxOut { value: 0, script_pubkey: vec![0x51] },
            TxOut { value: 0, script_pubkey: first.as_bytes().to_vec() },
            TxOut { value: 0, script_pubkey: second.as_bytes().to_vec() },
        ],
    };
    assert_eq!(parser.parse_transaction(&tx).unwrap().content, InscriptionType::Text("first".to_string()));
}

#[test]
fn pushes_concatenate_and_opcodes_are_skipped() {
    let parser = InscriptionParser::new();
    let b = Builder::new().push_opcode(OP_FALSE).push_opcode(all::OP_IF);
    let b = push(push(b, b"text/plain;").push_opcode(all::OP_NOP), b"charset=utf-8").push_opcode(OP_0);
    let script = push(push(b, b"Hello, ").push_opcode(all::OP_DUP), b"world").push_opcode(all::OP_ENDIF).into_script();
    assert_eq!(parser.parse_script(script.as_bytes()), Some(InscriptionType::Text("Hello, world".to_string())));
}

#[test]
fn nothing_after_endif_is_read() {
    let parser = InscriptionParser::new();
    let mut script = envelope(OP_FALSE, b"image/gif", OP_0, b"GIF").as_bytes().to_vec();
    script.extend_from_slice(&[0x01, b'!']);
    assert_eq!(
        parser.parse_script(&script),
        Some(InscriptionType::Image { mime_type: "image/gif".to_string(), data: b"GIF".to_vec() })
    );
}

#[test]
fn truncated_push_ends_the_envelope() {
    let parser = InscriptionParser::new();
    let mut script = vec![0x00, 0x63, 0x09];
    script.extend_from_slice(b"image/png");
    script.extend_from_slice(&[0x00, 0x02, 0xAB, 0xCD, 0x05, 0x01]);
    assert_eq!(
        parser.parse_script(&script),
        Some(InscriptionType::Image { mime_type: "image/png".to_string(), data: vec![0xAB, 0xCD] })
    );
}

#[test]
fn envelope_without_separator_keeps_everything_as_type() {
    let parser = InscriptionParser::new();
    let b = Builder::new().push_opcode(OP_FALSE).push_opcode(all::OP_IF);
    let script = push(push(b, b"image/"), b"webp").push_opcode(all::OP_ENDIF).into_script();
    assert_eq!(
        parser.parse_script(script.as_bytes()),
        Some(InscriptionType::Image { mime_type: "image/webp".to_string(), data: vec![] })
    );
}

#[test]
fn classifier_rules() {
    let parser = InscriptionParser::new();
    assert_eq!(parser.classify_inscription(vec![0xff], b"x".to_vec()), None);
    assert_eq!(parser.classify_inscription(b"text/plain;charset=utf-8".to_vec(), vec![0xc3, 0x28]), None);
    assert_eq!(
        parser.classify_inscription(b"text/plain;charset=utf-8".to_vec(), "h\u{e9}".as_bytes().to_vec()),
        Some(InscriptionType::Text("h\u{e9}".to_string()))
    );
    assert_eq!(parser.classify_inscription(b"text/plain".to_vec(), b"t".to_vec()), Some(InscriptionType::Unknown(b"t".to_vec())));
    assert_eq!(parser.classify_inscription(b"image".to_vec(), vec![1]), Some(InscriptionType::Unknown(vec![1])));
    assert_eq!(
        parser.classify_inscription(b"image/".to_vec(), vec![0xff]),
        Some(InscriptionType::Image { mime_type: "image/".to_string(), data: vec![0xff] })
    );
    assert_eq!(parser.classify_inscription(vec![], vec![]), Some(InscriptionType::Unknown(vec![])));
}

#[test]
fn classifier_is_deterministic() {
    let parser = InscriptionParser::new();
    for (ct, c) in [(b"image/png".to_vec(), vec![1u8, 2]), (b"text/plain;charset=utf-8".to_vec(), b"hi".to_vec()), (vec![0xffu8], vec![])] {
        assert_eq!(parser.classify_inscription(ct.clone(), c.clone()), parser.classify_inscription(ct, c));
    }
}

#[test]
fn text_encodes_content_bytes() {
    let parser = InscriptionParser::new();
    let bytes = "gr\u{fc}\u{df} \u{1F600}".as_bytes().to_vec();
    match parser.classify_inscription(b"text/plain;charset=utf-8".to_vec(), bytes.clone()) {
        Some(InscriptionType::Text(s)) => assert_eq!(s.as_bytes(), &bytes[..]),
        other => panic!("unexpected {:?}", other),
    }
}

fn script_instructions(script: &[u8]) -> Vec<Result<Instruction, DecodeError>> {
    let mut reader = ScriptReader::new(script);
    let mut items = Vec::new();
    while let Some(item) = reader.next() {
        items.push(item);
    }
    items
}

#[test]
fn reader_peeks_without_consuming() {
    let mut reader = ScriptReader::new(&[0x51, 0x01, 0x07]);
    assert_eq!(reader.peek(), Some(&Ok(Instruction::Op(0x51))));
    assert_eq!(reader.next(), Some(Ok(Instruction::Op(0x51))));
    assert_eq!(reader.peek(), Some(&Ok(Instruction::PushBytes(vec![0x07]))));
    assert_eq!(reader.next(), Some(Ok(Instruction::PushBytes(vec![0x07]))));
    assert_eq!(reader.peek(), None);
    assert_eq!(reader.next(), None);
    assert!(ScriptReader::new(&[]).next().is_none());
}

#[test]
fn instructions_decode_pushes_and_opcodes() {
    let items = script_instructions(&[0x00, 0x63, 0x02, 0xAA, 0xBB, 0x4c, 0x01, 0xCC, 0x68]);
    assert_eq!(
        items,
        vec![
            Ok(Instruction::PushBytes(vec![])),
            Ok(Instruction::Op(0x63)),
            Ok(Instruction::PushBytes(vec![0xAA, 0xBB])),
            Ok(Instruction::PushBytes(vec![0xCC])),
            Ok(Instruction::Op(0x68)),
        ]
    );
}

#[test]
fn instructions_stop_at_truncated_push() {
    assert_eq!(script_instructions(&[0x51, 0x03, 0x01]), vec![Ok(Instruction::Op(0x51)), Err(DecodeError::EarlyEndOfScript)]);
    assert_eq!(script_instructions(&[0x4d, 0x01]), vec![Err(DecodeError::EarlyEndOfScript)]);
    assert_eq!(script_instructions(&[0x4d, 0x02, 0x00, 0x01, 0x02]), vec![Ok(Instruction::PushBytes(vec![1, 2]))]);
}
