//! What the storage sinks write and read: content-addressed image records
//! and text journal entries. The files themselves are handled by the caller.
use vstd::prelude::*;
use bitcoin::hashes::Hash as _;
use vstd::slice::slice_to_vec;
use vstd::utf8::{char_is_scalar, decode_utf8, decode_utf8_encode_utf8, encode_scalar, encode_utf8, encode_utf8_decode_utf8, encode_utf8_valid_utf8, valid_utf8};
use crate::inscription::{string_from_utf8, Inscription, InscriptionType};

verus! {

/// Errors that the storage layer finds in what it reads.
#[derive(Debug, Clone, PartialEq, Eq)]
pub enum StorageError {
    /// An image record that cannot be read back.
    ImageError(String),
}

pub open spec fn is_image_error(e: StorageError, message: Seq<char>) -> bool {
    match e {
        StorageError::ImageError(m) => m@ == message,
    }
}

/// The BLAKE3 digest of some bytes, in lower-case hexadecimal.
pub uninterp spec fn blake3_hex(data: Seq<u8>) -> Seq<char>;

/// Relies on blake3::hash and `Hash::to_hex`: the digest of `data` in
/// lower-case hexadecimal, which depends on the bytes alone.
#[verifier::external_body]
fn blake3_hex_of(data: &[u8]) -> (r: String)
    ensures
        r@ == blake3_hex(data@),
{
    blake3::hash(data).to_hex().to_string()
}

/// The SHA-256 digest of some bytes.
pub uninterp spec fn sha256_digest(data: Seq<u8>) -> Seq<u8>;

/// Relies on bitcoin's `sha256::Hash::hash`: the SHA-256 digest of `data`,
/// which depends on the bytes alone.
#[verifier::external_body]
fn sha256_of(data: &[u8]) -> (r: [u8; 32])
    ensures
        r@ == sha256_digest(data@),
{
    bitcoin::hashes::sha256::Hash::hash(data).to_byte_array()
}

/// A hexadecimal digit, in lower case.
pub open spec fn hex_digit(n: u8) -> char {
    if n < 10 {
        ((48 + n) as u32) as char
    } else {
        ((87 + n) as u32) as char
    }
}

/// A byte as two lower-case hexadecimal digits.
pub open spec fn hex_byte(b: u8) -> Seq<char> {
    seq![hex_digit(b / 16), hex_digit(b % 16)]
}

/// Bytes in lower-case hexadecimal, last byte first: how transaction ids
/// are written.
pub open spec fn reversed_hex(bytes: Seq<u8>) -> Seq<char>
    decreases bytes.len(),
{
    if bytes.len() == 0 {
        Seq::empty()
    } else {
        hex_byte(bytes.last()) + reversed_hex(bytes.drop_last())
    }
}

/// Relies on `Txid::from_byte_array` and the `Display` of `Txid`, which
/// writes the bytes in lower-case hexadecimal in reverse order.
#[verifier::external_body]
fn txid_hex(bytes: [u8; 32]) -> (r: String)
    ensures
        r@ == reversed_hex(bytes@),
{
    bitcoin::Txid::from_byte_array(bytes).to_string()
}

/// The file name of an image: `<txid>-<hash>.bin`.
pub open spec fn image_file_name(txid: Seq<char>, hash_hex: Seq<char>) -> Seq<char> {
    txid + "-"@ + hash_hex + ".bin"@
}

/// The body of an image file: the MIME type, a line feed, the raw data.
pub open spec fn image_record(mime_type: Seq<char>, data: Seq<u8>) -> Seq<u8> {
    encode_utf8(mime_type) + seq![10u8] + data
}

/// `k` is where the MIME type of a record ends: at its first line feed, or
/// at its end if it has none.
pub open spec fn mime_end(b: Seq<u8>, k: int) -> bool {
    &&& 0 <= k <= b.len()
    &&& k < b.len() ==> b[k] == 10
    &&& forall|j: int| 0 <= j < k ==> b[j] != 10
}

/// What reading an image record gives.
pub enum RecordView {
    Image(Seq<char>, Seq<u8>),
    InvalidMimeType,
    MissingData,
}

pub open spec fn read_record(b: Seq<u8>) -> RecordView {
    let k = choose|k: int| mime_end(b, k);
    if !valid_utf8(b.take(k)) {
        RecordView::InvalidMimeType
    } else if k == b.len() {
        RecordView::MissingData
    } else {
        RecordView::Image(decode_utf8(b.take(k)), b.skip(k + 1))
    }
}

proof fn lemma_mime_end_unique(b: Seq<u8>, k1: int, k2: int)
    requires
        mime_end(b, k1),
        mime_end(b, k2),
    ensures
        k1 == k2,
{
    if k1 < k2 {
        assert(b[k1] != 10);
    } else if k2 < k1 {
        assert(b[k2] != 10);
    }
}

proof fn lemma_byte_not_newline(y: u8)
    ensures
        (0x80u8 | y) != 10u8,
        (0xC0u8 | y) != 10u8,
        (0xE0u8 | y) != 10u8,
        (0xF0u8 | y) != 10u8,
{
    assert((0x80u8 | y) != 10u8) by (bit_vector);
    assert((0xC0u8 | y) != 10u8) by (bit_vector);
    assert((0xE0u8 | y) != 10u8) by (bit_vector);
    assert((0xF0u8 | y) != 10u8) by (bit_vector);
}

proof fn lemma_scalar_no_newline(s: u32)
    requires
        s != 10,
    ensures
        !encode_scalar(s).contains(10u8),
{
    let e = encode_scalar(s);
    if s <= 0x7F {
        assert(((s & 0x7F) as u8) != 10u8) by (bit_vector)
            requires
                s != 10u32,
                s <= 0x7Fu32,
        ;
        assert(e[0] != 10u8);
    } else {
        lemma_byte_not_newline(((s >> 6) & 0x1F) as u8);
        lemma_byte_not_newline(((s >> 12) & 0x0F) as u8);
        lemma_byte_not_newline(((s >> 18) & 0x7) as u8);
        lemma_byte_not_newline((s & 0x3F) as u8);
        lemma_byte_not_newline(((s >> 6) & 0x3F) as u8);
        lemma_byte_not_newline(((s >> 12) & 0x3F) as u8);
    }
    assert forall|i: int| 0 <= i < e.len() implies e[i] != 10u8 by {}
}

proof fn lemma_text_no_newline(chars: Seq<char>)
    requires
        !chars.contains('\n'),
    ensures
        !encode_utf8(chars).contains(10u8),
    decreases chars.len(),
{
    if chars.len() > 0 {
        let c = chars[0];
        assert(c != '\n');
        assert(c as u32 != 10) by {
            if c as u32 == 10 {
                vstd::utf8::char_u32_cast(c, 10u32);
            }
        }
        lemma_scalar_no_newline(c as u32);
        assert(!chars.drop_first().contains('\n')) by {
            if chars.drop_first().contains('\n') {
                let i = choose|i: int| 0 <= i < chars.drop_first().len() && chars.drop_first()[i] == '\n';
                assert(chars[i + 1] == '\n');
            }
        }
        lemma_text_no_newline(chars.drop_first());
        let e = encode_utf8(chars);
        let head = encode_scalar(c as u32);
        let tail = encode_utf8(chars.drop_first());
        assert(e == head + tail);
        assert forall|i: int| 0 <= i < e.len() implies e[i] != 10u8 by {
            if i < head.len() {
                assert(e[i] == head[i]);
            } else {
                assert(e[i] == tail[i - head.len()]);
            }
        }
    }
}

/// An image record read back gives the MIME type and the data that were
/// written, provided the MIME type holds no line feed.
pub proof fn lemma_image_record_round_trip(mime_type: Seq<char>, data: Seq<u8>)
    requires
        !mime_type.contains('\n'),
    ensures
        read_record(image_record(mime_type, data)) == RecordView::Image(mime_type, data),
{
    let m = encode_utf8(mime_type);
    let b = image_record(mime_type, data);
    lemma_text_no_newline(mime_type);
    let k = m.len() as int;
    assert(b[k] == 10u8);
    assert forall|j: int| 0 <= j < k implies b[j] != 10 by {
        assert(b[j] == m[j]);
    }
    assert(mime_end(b, k));
    let chosen = choose|k: int| mime_end(b, k);
    lemma_mime_end_unique(b, chosen, k);
    assert(b.take(k) =~= m);
    assert(b.skip(k + 1) =~= data);
    encode_utf8_valid_utf8(mime_type);
    encode_utf8_decode_utf8(mime_type);
}

/// Writes image records into a directory, one file per image.
pub struct ImageStorage {
    base_dir: String,
}

impl ImageStorage {
    pub fn new(base_dir: String) -> (r: Self)
        ensures
            r.base_dir()@ == base_dir@,
    {
        ImageStorage { base_dir }
    }

    pub closed spec fn base_dir(&self) -> String {
        self.base_dir
    }

    /// The directory that holds the image files.
    pub fn dir(&self) -> (r: &str)
        ensures
            r@ == self.base_dir()@,
    {
        self.base_dir.as_str()
    }

    /// The name of the file for an image of `data` found in `txid`, from
    /// the hexadecimal BLAKE3 digest of `data`.
    pub fn file_name(txid: &str, data: &[u8]) -> (r: String)
        ensures
            r@ == image_file_name(txid@, blake3_hex(data@)),
    {
        let hash = blake3_hex_of(data);
        Self::file_name_for_hash(txid, hash.as_str())
    }

    /// The name of the file for an image found in `txid` whose data has the
    /// hexadecimal digest `hash_hex`.
    pub fn file_name_for_hash(txid: &str, hash_hex: &str) -> (r: String)
        ensures
            r@ == image_file_name(txid@, hash_hex@),
    {
        let mut name = String::from_str(txid);
        name.append("-");
        name.append(hash_hex);
        name.append(".bin");
        name
    }

    /// The body of the file for an image.
    pub fn record(mime_type: &str, data: &[u8]) -> (r: Vec<u8>)
        ensures
            r@ == image_record(mime_type@, data@),
    {
        let mut out = slice_to_vec(mime_type.as_bytes());
        out.push(10u8);
        let ghost before = out@;
        out.extend_from_slice(data);
        assert(out@ =~= before + data@);
        out
    }

    /// Reads an image file body back into its MIME type and data.
    pub fn parse_record(content: &[u8]) -> (r: Result<(String, Vec<u8>), StorageError>)
        ensures
            match read_record(content@) {
                RecordView::Image(m, d) => r.is_ok() && r.unwrap().0@ == m && r.unwrap().1@ == d,
                RecordView::InvalidMimeType => r.is_err() && is_image_error(r->Err_0, "Invalid mime type"@),
                RecordView::MissingData => r.is_err() && is_image_error(r->Err_0, "Invalid data"@),
            },
    {
        let mut k: usize = 0;
        while k < content.len() && content[k] != 10u8
            invariant
                k <= content@.len(),
                forall|j: int| 0 <= j < k ==> content@[j] != 10,
            decreases content@.len() - k,
        {
            k = k + 1;
        }
        proof {
            assert(mime_end(content@, k as int));
            let chosen = choose|k: int| mime_end(content@, k);
            lemma_mime_end_unique(content@, chosen, k as int);
        }
        let mime_bytes = slice_to_vec(vstd::slice::slice_subrange(content, 0, k));
        assert(mime_bytes@ =~= content@.take(k as int));
        let mime_type = match string_from_utf8(mime_bytes) {
            Some(m) => m,
            None => return Err(StorageError::ImageError(String::from_str("Invalid mime type"))),
        };
        if k == content.len() {
            return Err(StorageError::ImageError(String::from_str("Invalid data")));
        }
        let data = slice_to_vec(vstd::slice::slice_subrange(content, k + 1, content.len()));
        assert(data@ =~= content@.skip(k + 1));
        Ok((mime_type, data))
    }
}

/// One line of the text journal.
#[derive(Debug, Clone, PartialEq, Eq)]
pub struct TextEntry {
    pub txid: String,
    pub content: String,
    /// Seconds since the Unix epoch at which the entry was written.
    pub timestamp: u64,
}

/// Appends text inscriptions to a journal file, one entry per line.
pub struct TextStorage {
    log_file: String,
}

impl TextStorage {
    pub fn new(log_file: String) -> (r: Self)
        ensures
            r.log_file()@ == log_file@,
    {
        TextStorage { log_file }
    }

    pub closed spec fn log_file(&self) -> String {
        self.log_file
    }

    /// The path of the journal file.
    pub fn path(&self) -> (r: &str)
        ensures
            r@ == self.log_file()@,
    {
        self.log_file.as_str()
    }

    /// The journal entry for text `content` found in `txid` at `timestamp`.
    pub fn entry(txid: &str, content: &str, timestamp: u64) -> (r: TextEntry)
        ensures
            r.txid@ == txid@,
            r.content@ == content@,
            r.timestamp == timestamp,
    {
        TextEntry { txid: String::from_str(txid), content: String::from_str(content), timestamp }
    }
}

/// What storing one inscription takes.
#[derive(Debug, Clone, PartialEq, Eq)]
pub enum StoreAction {
    /// Write `body` to the file `file_name` of the image directory.
    WriteImage { file_name: String, body: Vec<u8> },
    /// Append the entry to the text journal.
    AppendText(TextEntry),
    /// Nothing is stored.
    Skip,
}

/// Images go to the image directory, text to the journal; unknown content is
/// not kept.
pub struct Storage {
    image_storage: ImageStorage,
    text_storage: TextStorage,
}

impl Storage {
    pub fn new(image_dir: String, text_log: String) -> (r: Self)
        ensures
            r.images().base_dir()@ == image_dir@,
            r.texts().log_file()@ == text_log@,
    {
        Storage { image_storage: ImageStorage::new(image_dir), text_storage: TextStorage::new(text_log) }
    }

    pub closed spec fn images(&self) -> ImageStorage {
        self.image_storage
    }

    pub closed spec fn texts(&self) -> TextStorage {
        self.text_storage
    }

    pub fn image_storage(&self) -> (r: &ImageStorage)
        ensures
            r.base_dir() == self.images().base_dir(),
    {
        &self.image_storage
    }

    pub fn text_storage(&self) -> (r: &TextStorage)
        ensures
            r.log_file() == self.texts().log_file(),
    {
        &self.text_storage
    }

    /// What storing `text` that came without a transaction takes: a journal
    /// entry under an identifier made from the SHA-256 digest of its UTF-8
    /// bytes, written as a transaction id.
    pub fn store_text(&self, text: &str, timestamp: u64) -> (r: StoreAction)
        ensures
            match r {
                StoreAction::AppendText(e) =>
                    e.txid@ == reversed_hex(sha256_digest(encode_utf8(text@))) && e.content@ == text@ && e.timestamp == timestamp,
                _ => false,
            },
    {
        let digest = sha256_of(text.as_bytes());
        let txid = txid_hex(digest);
        StoreAction::AppendText(TextStorage::entry(txid.as_str(), text, timestamp))
    }

    /// What storing `inscription` at `timestamp` takes: an image becomes the
    /// file `<txid>-<blake3 of data>.bin` holding its record, text becomes a
    /// journal entry, and unknown content is skipped.
    pub fn store_inscription(&self, inscription: &Inscription, timestamp: u64) -> (r: StoreAction)
        ensures
            match inscription.content {
                InscriptionType::Image { mime_type, data } => match r {
                    StoreAction::WriteImage { file_name, body } =>
                        file_name@ == image_file_name(inscription.txid@, blake3_hex(data@))
                            && body@ == image_record(mime_type@, data@),
                    _ => false,
                },
                InscriptionType::Text(text) => match r {
                    StoreAction::AppendText(e) =>
                        e.txid@ == inscription.txid@ && e.content@ == text@ && e.timestamp == timestamp,
                    _ => false,
                },
                InscriptionType::Unknown(_) => r == StoreAction::Skip,
            },
    {
        match &inscription.content {
            InscriptionType::Image { mime_type, data } => StoreAction::WriteImage {
                file_name: ImageStorage::file_name(inscription.txid.as_str(), data.as_slice()),
                body: ImageStorage::record(mime_type.as_str(), data.as_slice()),
            },
            InscriptionType::Text(text) => StoreAction::AppendText(
                TextStorage::entry(inscription.txid.as_str(), text.as_str(), timestamp),
            ),
            InscriptionType::Unknown(_) => StoreAction::Skip,
        }
    }
}

} // verus!
