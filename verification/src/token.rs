//! Callback tokens: what a button of an inline keyboard carries, and the
//! compact text that stands for it on the wire.
//!
//! A token is laid out as bytes and the bytes are written in base 58. The
//! layout starts with a four-byte tag. A menu selection follows it with the
//! item's identifier as eight bytes in two's complement. A date selection
//! follows it with the length of the date's text as eight bytes, then the
//! text. All numbers are little-endian.

use crate::base58::{base58_bytes, base58_text, decode_base58, encode_base58};
use crate::calendar::{lemma_same_day, valid_ymd, Date};
use crate::domain::MenuItemId;
use crate::iso::{format_date, iso_text, lemma_iso_text_injective, parse_date};
use crate::le::{
    from_twos_complement, le_bytes, le_value, lemma_le_bytes_len, lemma_le_bytes_of_value,
    lemma_le_value_bound, lemma_le_value_of_bytes, lemma_radix_pow_values, push_le, read_le,
    twos_complement,
};
use vstd::prelude::*;
use vstd::slice::slice_subrange;

verus! {

/// The tag of a menu selection.
pub const MENU_TAG: u32 = 0;

/// The tag of a date selection.
pub const DATE_TAG: u32 = 1;

/// What a click on a button means.
#[derive(Debug, Clone, Copy, PartialEq, Eq, Structural)]
pub enum CallbackToken {
    MenuSelected { menu_item_id: MenuItemId },
    DateSelected { date: Date },
}

/// Why a text is no token.
#[derive(Debug, Clone, Copy, PartialEq, Eq, Structural)]
pub enum DecodeError {
    /// The text is not base 58.
    NotBase58,
    /// The text is base 58, but its bytes are no token's layout.
    MalformedPayload,
}

/// The byte layout of a token.
pub open spec fn payload(token: CallbackToken) -> Seq<u8> {
    match token {
        CallbackToken::MenuSelected { menu_item_id } => le_bytes(MENU_TAG as nat, 4) + le_bytes(
            twos_complement(menu_item_id.0 as int),
            8,
        ),
        CallbackToken::DateSelected { date } => le_bytes(DATE_TAG as nat, 4) + le_bytes(
            iso_text(date@).len(),
            8,
        ) + iso_text(date@),
    }
}

/// Whether decoding `text` may end in `outcome`. For each text exactly one
/// outcome fits: see [`lemma_one_outcome`].
pub open spec fn decodes_to(text: Seq<char>, outcome: Result<CallbackToken, DecodeError>) -> bool {
    match outcome {
        Ok(token) => token.wf() && base58_bytes(text) == Some(payload(token)),
        Err(DecodeError::NotBase58) => base58_bytes(text) is None,
        Err(DecodeError::MalformedPayload) => base58_bytes(text) is Some && forall|
            token: CallbackToken,
        |
            token.wf() ==> payload(token) != base58_bytes(text)->0,
    }
}

impl CallbackToken {
    /// Whether the token's date, if it has one, is a day of the calendar.
    /// Every token that executable code holds is well formed.
    pub open spec fn wf(self) -> bool {
        match self {
            CallbackToken::MenuSelected { .. } => true,
            CallbackToken::DateSelected { date } => valid_ymd(date@),
        }
    }
}

/// What the layout of a well-formed token looks like from outside: the parts
/// that a reader takes it apart by.
pub proof fn lemma_payload_shape(token: CallbackToken)
    requires
        token.wf(),
    ensures
        payload(token).len() >= 12,
        match token {
            CallbackToken::MenuSelected { menu_item_id } => {
                &&& payload(token).len() == 12
                &&& le_value(payload(token).subrange(0, 4)) == MENU_TAG
                &&& from_twos_complement(le_value(payload(token).subrange(4, 12)))
                    == menu_item_id.0
            },
            CallbackToken::DateSelected { date } => {
                &&& le_value(payload(token).subrange(0, 4)) == DATE_TAG
                &&& le_value(payload(token).subrange(4, 12)) == payload(token).len() - 12
                &&& payload(token).subrange(12, payload(token).len() as int) == iso_text(date@)
            },
        },
{
    let bytes = payload(token);
    lemma_radix_pow_values();
    match token {
        CallbackToken::MenuSelected { menu_item_id } => {
            let pattern = twos_complement(menu_item_id.0 as int);
            lemma_le_bytes_len(MENU_TAG as nat, 4);
            lemma_le_bytes_len(pattern, 8);
            assert(bytes.subrange(0, 4) =~= le_bytes(MENU_TAG as nat, 4));
            assert(bytes.subrange(4, 12) =~= le_bytes(pattern, 8));
            lemma_le_value_of_bytes(MENU_TAG as nat, 4);
            lemma_le_value_of_bytes(pattern, 8);
        },
        CallbackToken::DateSelected { date } => {
            let text = iso_text(date@);
            crate::iso::lemma_fields_read_of_text(date@);
            lemma_le_bytes_len(DATE_TAG as nat, 4);
            lemma_le_bytes_len(text.len(), 8);
            assert(bytes.subrange(0, 4) =~= le_bytes(DATE_TAG as nat, 4));
            assert(bytes.subrange(4, 12) =~= le_bytes(text.len(), 8));
            lemma_le_value_of_bytes(DATE_TAG as nat, 4);
            lemma_le_value_of_bytes(text.len(), 8);
        },
    }
}

/// Two well-formed tokens with the same layout are the same token.
pub proof fn lemma_payload_injective(a: CallbackToken, b: CallbackToken)
    requires
        a.wf(),
        b.wf(),
        payload(a) == payload(b),
    ensures
        a == b,
{
    lemma_payload_shape(a);
    lemma_payload_shape(b);
    match (a, b) {
        (CallbackToken::DateSelected { date: x }, CallbackToken::DateSelected { date: y }) => {
            lemma_iso_text_injective(x@, y@);
            lemma_same_day(x, y);
        },
        _ => {},
    }
}

/// Decoding has one outcome: two outcomes that fit the same text are equal.
pub proof fn lemma_one_outcome(
    text: Seq<char>,
    first: Result<CallbackToken, DecodeError>,
    second: Result<CallbackToken, DecodeError>,
)
    requires
        decodes_to(text, first),
        decodes_to(text, second),
    ensures
        first == second,
{
    match (first, second) {
        (Ok(a), Ok(b)) => {
            lemma_payload_injective(a, b);
        },
        _ => {},
    }
}

/// Decoding the text of a token gives the token back: where `text` is what
/// encoding `token` returned, the one outcome of decoding it is `token`.
pub proof fn lemma_round_trip(
    token: CallbackToken,
    text: Seq<char>,
    outcome: Result<CallbackToken, DecodeError>,
)
    requires
        token.wf(),
        text == base58_text(payload(token)),
        base58_bytes(text) == Some(payload(token)),
        decodes_to(text, outcome),
    ensures
        outcome == Ok::<CallbackToken, DecodeError>(token),
{
    lemma_one_outcome(text, Ok(token), outcome);
}

impl CallbackToken {
    /// Lays the token out as bytes.
    pub fn to_payload(&self) -> (bytes: Vec<u8>)
        ensures
            bytes@ == payload(*self),
            self.wf(),
    {
        let mut bytes: Vec<u8> = Vec::new();
        match self {
            CallbackToken::MenuSelected { menu_item_id } => {
                let id: i64 = menu_item_id.0;
                let pattern: u64 = if id >= 0 {
                    id as u64
                } else {
                    (id - i64::MIN) as u64 + 0x8000_0000_0000_0000
                };
                push_le(&mut bytes, MENU_TAG as u64, 4);
                push_le(&mut bytes, pattern, 8);
            },
            CallbackToken::DateSelected { date } => {
                let text = format_date(date);
                proof {
                    crate::iso::lemma_fields_read_of_text(date@);
                }
                push_le(&mut bytes, DATE_TAG as u64, 4);
                push_le(&mut bytes, text.len() as u64, 8);
                let mut at: usize = 0;
                let ghost head = bytes@;
                while at < text.len()
                    invariant
                        at <= text@.len(),
                        bytes@ == head + text@.subrange(0, at as int),
                    decreases text@.len() - at,
                {
                    bytes.push(text[at]);
                    at = at + 1;
                }
            },
        }
        bytes
    }

    /// Reads a token from its layout. Bytes that are no token's layout,
    /// whole and exact, are refused.
    pub fn from_payload(bytes: &[u8]) -> (token: Option<CallbackToken>)
        ensures
            match token {
                Some(t) => t.wf() && payload(t) == bytes@,
                None => forall|t: CallbackToken| t.wf() ==> payload(t) != bytes@,
            },
    {
        proof {
            assert forall|t: CallbackToken| t.wf() && payload(t) == bytes@ implies {
                &&& bytes@.len() >= 12
                &&& match t {
                    CallbackToken::MenuSelected { menu_item_id } => {
                        &&& bytes@.len() == 12
                        &&& le_value(bytes@.subrange(0, 4)) == MENU_TAG
                    },
                    CallbackToken::DateSelected { date } => {
                        &&& le_value(bytes@.subrange(0, 4)) == DATE_TAG
                        &&& le_value(bytes@.subrange(4, 12)) == bytes@.len() - 12
                        &&& bytes@.subrange(12, bytes@.len() as int) == iso_text(date@)
                        &&& valid_ymd(date@)
                    },
                }
            } by {
                lemma_payload_shape(t);
            }
        }
        let n: usize = bytes.len();
        if n < 12 {
            return None;
        }
        let tag: u64 = read_le(bytes, 0, 4);
        let word: u64 = read_le(bytes, 4, 8);
        proof {
            lemma_radix_pow_values();
            lemma_le_bytes_of_value(bytes@.subrange(0, 4));
            lemma_le_bytes_of_value(bytes@.subrange(4, 12));
            lemma_le_value_bound(bytes@.subrange(4, 12));
        }
        if tag == MENU_TAG as u64 {
            if n != 12 {
                return None;
            }
            let id: i64 = if word < 0x8000_0000_0000_0000 {
                word as i64
            } else {
                (word - 0x8000_0000_0000_0000) as i64 + i64::MIN
            };
            Some(CallbackToken::MenuSelected { menu_item_id: MenuItemId(id) })
        } else if tag == DATE_TAG as u64 {
            if word != (n - 12) as u64 {
                return None;
            }
            let text = slice_subrange(bytes, 12, n);
            match parse_date(text) {
                Some(date) => Some(CallbackToken::DateSelected { date }),
                None => None,
            }
        } else {
            None
        }
    }

    /// The text that stands for the token on a button.
    pub fn encode(&self) -> (text: String)
        ensures
            text@ == base58_text(payload(*self)),
            decodes_to(text@, Ok(*self)),
    {
        let bytes = self.to_payload();
        encode_base58(bytes.as_slice())
    }

    /// Reads a token from the text of a button. Never fails otherwise than
    /// by returning an error: a text that is not base 58 is `NotBase58`, and
    /// bytes that are no token's layout are `MalformedPayload`.
    pub fn decode(text: &str) -> (outcome: Result<CallbackToken, DecodeError>)
        ensures
            decodes_to(text@, outcome),
    {
        match decode_base58(text) {
            Ok(bytes) => match CallbackToken::from_payload(bytes.as_slice()) {
                Some(token) => Ok(token),
                None => Err(DecodeError::MalformedPayload),
            },
            Err(_) => Err(DecodeError::NotBase58),
        }
    }
}

} // verus!
