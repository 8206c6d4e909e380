use vstd::prelude::*;
use vstd::utf8::{decode_utf8, encode_utf8, valid_utf8};

use crate::config::opt_chars;

verus! {

/// One key of a secret's data with its raw value.
pub struct SecretEntry {
    pub key: String,
    pub value: Vec<u8>,
}

/// Why no value could be printed from a secret.
pub enum SecretError {
    /// The secret has no data, or its data is empty.
    NoDataFound,
    /// The data has no entry under the requested key.
    KeyNotFound(String),
    /// The selected value is not UTF-8 text.
    InvalidUtf8,
}

/// The secret carries no data to choose from.
pub open spec fn has_no_data(data: Option<Vec<SecretEntry>>) -> bool {
    match data {
        None => true,
        Some(es) => es@.len() == 0,
    }
}

/// The first index at or after `start` whose entry has key `k`.
pub open spec fn find_key_from(es: Seq<SecretEntry>, k: Seq<char>, start: int) -> Option<int>
    decreases es.len() - start,
{
    if start < 0 || start >= es.len() {
        None
    } else if es[start].key@ == k {
        Some(start)
    } else {
        find_key_from(es, k, start + 1)
    }
}

/// The value that is printed for `key`: the entry under that key, or,
/// without a key, the first entry of the data (the smallest key, as a
/// secret's data is ordered by key).
pub open spec fn selected_value(data: Option<Vec<SecretEntry>>, key: Option<Seq<char>>) -> Option<Seq<u8>> {
    if has_no_data(data) {
        None
    } else {
        let es = data->Some_0@;
        match key {
            None => Some(es[0].value@),
            Some(k) => match find_key_from(es, k, 0) {
                None => None,
                Some(i) => Some(es[i].value@),
            },
        }
    }
}

/// The text that is printed for a value: its UTF-8 decoding and a newline.
pub open spec fn printed_text(v: Seq<u8>) -> Option<Seq<char>> {
    if valid_utf8(v) {
        Some(decode_utf8(v) + seq!['\n'])
    } else {
        None
    }
}

/// The text printed for `key` from `data`, when there is one.
pub open spec fn printed(data: Option<Vec<SecretEntry>>, key: Option<Seq<char>>) -> Option<Seq<char>> {
    match selected_value(data, key) {
        None => None,
        Some(v) => printed_text(v),
    }
}

/// The error that selecting `key` from `data` fails with, when it fails.
pub open spec fn selection_error(data: Option<Vec<SecretEntry>>, key: Option<Seq<char>>, e: SecretError) -> bool {
    if has_no_data(data) {
        e is NoDataFound
    } else {
        e matches SecretError::KeyNotFound(k) && key == Some(k@)
    }
}

/// Selects the value to print: the one under `key`, or the first one when no
/// key is given.
pub fn select_value(data: &Option<Vec<SecretEntry>>, key: &Option<String>) -> (r: Result<Vec<u8>, SecretError>)
    ensures
        r is Ok <==> selected_value(*data, opt_chars(*key)) is Some,
        r matches Ok(v) ==> selected_value(*data, opt_chars(*key)) == Some(v@),
        r matches Err(e) ==> selection_error(*data, opt_chars(*key), e),
{
    let es = match data {
        None => {
            return Err(SecretError::NoDataFound);
        },
        Some(es) => es,
    };
    if es.len() == 0 {
        return Err(SecretError::NoDataFound);
    }
    match key {
        None => Ok(copy_bytes(&es[0].value)),
        Some(k) => {
            let mut i: usize = 0;
            while i < es.len()
                invariant
                    *data == Some(*es),
                    *key == Some(*k),
                    es@.len() > 0,
                    0 <= i <= es@.len(),
                    find_key_from(es@, k@, 0) == find_key_from(es@, k@, i as int),
                decreases es@.len() - i,
            {
                if es[i].key == *k {
                    assert(find_key_from(es@, k@, i as int) == Some(i as int));
                    return Ok(copy_bytes(&es[i].value));
                }
                i = i + 1;
            }
            Err(SecretError::KeyNotFound(k.clone()))
        },
    }
}

fn copy_bytes(v: &Vec<u8>) -> (r: Vec<u8>)
    ensures
        r@ == v@,
{
    let mut out: Vec<u8> = Vec::new();
    let mut i: usize = 0;
    while i < v.len()
        invariant
            0 <= i <= v@.len(),
            out@ == v@.subrange(0, i as int),
        decreases v@.len() - i,
    {
        out.push(v[i]);
        i = i + 1;
    }
    assert(out@ =~= v@);
    out
}

/// Relies on String::from_utf8: it succeeds exactly on valid UTF-8, and the
/// string then holds the characters those bytes encode.
#[verifier::external_body]
fn decode_text(b: Vec<u8>) -> (r: Option<String>)
    ensures
        r is Some <==> valid_utf8(b@),
        r matches Some(s) ==> s@ == decode_utf8(b@),
{
    String::from_utf8(b).ok()
}

/// Turns a value into the line that is printed: its text and a newline.
pub fn print_value(bs: Vec<u8>) -> (r: Result<String, SecretError>)
    ensures
        r is Ok <==> printed_text(bs@) is Some,
        r matches Ok(s) ==> printed_text(bs@) == Some(s@),
        r matches Err(e) ==> e is InvalidUtf8,
{
    match decode_text(bs) {
        None => Err(SecretError::InvalidUtf8),
        Some(mut s) => {
            proof {
                reveal_strlit("\n");
            }
            s.append("\n");
            Ok(s)
        },
    }
}

/// The line printed for a secret's data and an optional key, or the reason
/// there is none.
pub fn print_secret(data: &Option<Vec<SecretEntry>>, opt_key: &Option<String>) -> (r: Result<String, SecretError>)
    ensures
        r is Ok <==> printed(*data, opt_chars(*opt_key)) is Some,
        r matches Ok(s) ==> printed(*data, opt_chars(*opt_key)) == Some(s@),
        r matches Err(e) ==> if selected_value(*data, opt_chars(*opt_key)) is Some {
            e is InvalidUtf8
        } else {
            selection_error(*data, opt_chars(*opt_key), e)
        },
{
    match select_value(data, opt_key) {
        Err(e) => Err(e),
        Ok(v) => print_value(v),
    }
}

impl SecretError {
    /// The message that reports this error.
    pub fn message(&self) -> (r: String)
        ensures
            self is NoDataFound ==> r@ == "No data found in secret"@,
            self matches SecretError::KeyNotFound(k) ==> r@ == "No data found for key: "@ + k@,
            self is InvalidUtf8 ==> r@ == "Secret value is not valid UTF-8"@,
    {
        match self {
            SecretError::NoDataFound => String::from_str("No data found in secret"),
            SecretError::KeyNotFound(k) => {
                let mut m = String::from_str("No data found for key: ");
                m.append(k.as_str());
                m
            },
            SecretError::InvalidUtf8 => String::from_str("Secret value is not valid UTF-8"),
        }
    }
}

/// The keys of a secret's data, in data order; none without data.
pub fn data_keys(data: &Option<Vec<SecretEntry>>) -> (r: Vec<String>)
    ensures
        data is None ==> r@.len() == 0,
        data matches Some(es) ==> r@.len() == es@.len() && forall|i: int|
            0 <= i < r@.len() ==> #[trigger] r@[i]@ == es@[i].key@,
{
    let mut keys: Vec<String> = Vec::new();
    match data {
        None => {},
        Some(es) => {
            let mut i: usize = 0;
            while i < es.len()
                invariant
                    0 <= i <= es@.len(),
                    keys@.len() == i,
                    forall|j: int| 0 <= j < i ==> #[trigger] keys@[j]@ == es@[j].key@,
                decreases es@.len() - i,
            {
                keys.push(es[i].key.clone());
                i = i + 1;
            }
        },
    }
    keys
}

/// A text stored as UTF-8 under the only key of a secret prints back as
/// that same text followed by a newline.
pub proof fn lemma_text_round_trip(data: Option<Vec<SecretEntry>>, text: Seq<char>)
    requires
        data matches Some(es) && es@.len() == 1 && es@[0].value@ == encode_utf8(text),
    ensures
        printed(data, None) == Some(text + seq!['\n']),
{
    vstd::utf8::encode_utf8_valid_utf8(text);
    vstd::utf8::encode_utf8_decode_utf8(text);
}

} // verus!
