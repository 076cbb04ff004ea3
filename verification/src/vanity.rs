//! Accounts whose address begins with a prefix of the user's choice.
use vstd::prelude::*;
use vstd::string::StringExecFns;
use vstd::utf8::{encode_scalar, encode_utf8};

use crate::error::{CliError, CliErrorView, CliTypedResult};
use crate::text::{followed_by, skip_chars, starts_with};

verus! {

/// Why a text is not a hex string.
#[derive(Debug)]
pub enum HexError {
    /// An invalid character was found.
    InvalidHexCharacter { c: char, index: usize },
    /// A hex string's length needs to be even, as two digits correspond to one byte.
    OddLength,
    /// The hex string does not have the length of the container it is decoded into.
    InvalidStringLength,
}

/// Whether a byte is a hex digit, of either case.
pub open spec fn hex_byte(b: u8) -> bool {
    0x30 <= b <= 0x39 || 0x41 <= b <= 0x46 || 0x61 <= b <= 0x66
}

/// The value of a hex digit.
pub open spec fn hex_value(b: u8) -> int {
    if b <= 0x39 {
        b - 0x30
    } else if b <= 0x46 {
        b - 0x41 + 10
    } else {
        b - 0x61 + 10
    }
}

/// How many hex digits `bytes` begins with.
pub open spec fn leading_hex(bytes: Seq<u8>) -> nat
    decreases bytes.len(),
{
    if bytes.len() > 0 && hex_byte(bytes.first()) {
        1 + leading_hex(bytes.drop_first())
    } else {
        0
    }
}

/// The complaint about the first byte that is not a hex digit.
pub open spec fn first_complaint(bytes: Seq<u8>) -> HexError {
    let index = leading_hex(bytes);
    HexError::InvalidHexCharacter { c: bytes[index as int] as char, index: index as usize }
}

/// What comes of decoding `bytes` as a hex string.
pub open spec fn hex_outcome(bytes: Seq<u8>, res: Result<Vec<u8>, HexError>) -> bool {
    match res {
        Ok(decoded) => {
            &&& bytes.len() == 2 * decoded@.len()
            &&& leading_hex(bytes) == bytes.len()
            &&& forall|i: int|
                0 <= i < decoded@.len() ==> #[trigger] decoded@[i] == 16 * hex_value(bytes[2 * i])
                    + hex_value(bytes[2 * i + 1])
        },
        Err(HexError::OddLength) => bytes.len() % 2 == 1,
        Err(error) => {
            &&& bytes.len() % 2 == 0
            &&& leading_hex(bytes) < bytes.len()
            &&& error == first_complaint(bytes)
        },
    }
}

/// The text that the `Debug` implementation of `char` prints.
pub uninterp spec fn char_debug_text(c: char) -> Seq<char>;

/// The message of a hex error.
pub open spec fn hex_error_message(error: HexError) -> Seq<char> {
    match error {
        HexError::InvalidHexCharacter { c, index } => "Invalid character "@ + char_debug_text(c)
            + " at position "@ + crate::text::decimal(index as nat),
        HexError::OddLength => "Odd number of digits"@,
        HexError::InvalidStringLength => "Invalid string length"@,
    }
}

/// `hex::decode`: digits of either case are decoded by twos; an odd number of
/// bytes is refused, and otherwise the first byte that is no digit, which is
/// given as the character of the same number.
#[verifier::external_body]
fn hex_decode(text: &str) -> (res: Result<Vec<u8>, HexError>)
    ensures
        hex_outcome(encode_utf8(text@), res),
{
    match hex::decode(text) {
        Ok(bytes) => Ok(bytes),
        Err(hex::FromHexError::InvalidHexCharacter { c, index }) => Err(
            HexError::InvalidHexCharacter { c, index },
        ),
        Err(hex::FromHexError::OddLength) => Err(HexError::OddLength),
        Err(hex::FromHexError::InvalidStringLength) => Err(HexError::InvalidStringLength),
    }
}

/// The `Display` implementation of `hex::FromHexError`: a sentence for each kind
/// of error. That of a character shows it as the `Debug` implementation of `char`
/// does, in quotes and escaped where needed, and then its place in decimal.
#[verifier::external_body]
fn hex_error_text(error: HexError) -> (text: String)
    ensures
        match error {
            HexError::InvalidHexCharacter { c, index } => text@ == "Invalid character "@
                + char_debug_text(c) + " at position "@ + crate::text::decimal(index as nat),
            HexError::OddLength => text@ == "Odd number of digits"@,
            HexError::InvalidStringLength => text@ == "Invalid string length"@,
        },
{
    match error {
        HexError::InvalidHexCharacter { c, index } => hex::FromHexError::InvalidHexCharacter {
            c,
            index,
        },
        HexError::OddLength => hex::FromHexError::OddLength,
        HexError::InvalidStringLength => hex::FromHexError::InvalidStringLength,
    }.to_string()
}

/// Whether a character is a hex digit, of either case.
pub open spec fn hex_char(c: char) -> bool {
    '0' <= c <= '9' || 'A' <= c <= 'F' || 'a' <= c <= 'f'
}

/// Whether `s` is made of hex digits.
pub open spec fn hex_chars(s: Seq<char>) -> bool {
    forall|i: int| 0 <= i < s.len() ==> hex_char(#[trigger] s[i])
}

/// `s` without a leading `0x`.
pub open spec fn without_0x(s: Seq<char>) -> Seq<char> {
    if "0x"@.is_prefix_of(s) {
        s.skip(2)
    } else {
        s
    }
}

/// A search for an account whose address begins with a prefix.
#[derive(Debug)]
pub struct VanitySearch {
    /// The hex digits that the address begins with.
    pub prefix: String,
    /// Whether the address is that of a multisig account.
    pub multisig: bool,
}

/// The address that counts for a key.
#[derive(Debug, Clone, Copy, PartialEq, Eq, Structural)]
pub enum AddressKind {
    /// That of the key's own account.
    Standard,
    /// That of the multisig account which the key's account creates by the
    /// transaction of this sequence number.
    Multisig { sequence_number: u64 },
}

/// Starts the search for a vanity account for Ed25519 single signer scheme, either standard or
/// multisig.
///
/// The default authentication key for an Ed25519 account is the same as the account address. Hence
/// for a standard account, Ed25519 private keys are generated until finding one that has
/// an authentication key (account address) that begins with the given vanity prefix.
///
/// For a multisig account, private keys are generated until finding one that can create
/// a multisig account with the given vanity prefix as its first transaction (sequence number 0).
///
/// Note that while a valid hex string must have an even number of characters, a vanity prefix can
/// have an odd number of characters since account addresses are human-readable.
///
/// `vanity_prefix_ref` is a reference to a hex string vanity prefix, optionally prefixed with "0x".
/// For example "0xaceface" or "d00d".
pub fn generate_vanity_account_ed25519(vanity_prefix_ref: &str, multisig: bool) -> (res:
    CliTypedResult<VanitySearch>)
    ensures
        match res {
            Ok(search) => {
                &&& hex_chars(without_0x(vanity_prefix_ref@))
                &&& search.prefix@ == without_0x(vanity_prefix_ref@)
                &&& search.multisig == multisig
            },
            Err(error) => {
                &&& !hex_chars(without_0x(vanity_prefix_ref@))
                &&& error@ == CliErrorView::CommandArgumentError(
                    "The vanity prefix could not be decoded to hex: "@ + hex_error_message(
                        first_complaint(encode_utf8(without_0x(vanity_prefix_ref@))),
                    ),
                )
            },
        },
        res matches Ok(search) ==> {
            ||| vanity_prefix_ref@ == "0x"@ + search.prefix@
            ||| vanity_prefix_ref@ == search.prefix@ && !"0x"@.is_prefix_of(vanity_prefix_ref@)
        },
        res is Ok <==> forall|i: int|
            (if "0x"@.is_prefix_of(vanity_prefix_ref@) {
                2int
            } else {
                0int
            }) <= i < vanity_prefix_ref@.len() ==> hex_char(#[trigger] vanity_prefix_ref@[i]),
{
    // Optionally strip leading 0x from input string.
    proof {
        reveal_strlit("0x");
        reveal_strlit("0");
    }
    let prefix = if starts_with(vanity_prefix_ref, "0x") {
        skip_chars(vanity_prefix_ref, 2)
    } else {
        vanity_prefix_ref
    };
    let mut to_check_if_is_hex = prefix.to_owned();
    let ghost bytes = encode_utf8(prefix@);
    // If an odd number of characters append a 0 for verifying that prefix contains valid hex.
    if prefix.as_bytes().len() % 2 != 0 {
        to_check_if_is_hex.append("0");
        proof {
            assert("0"@ =~= seq!['0']);
            lemma_encode_push_digit(prefix@);
            assert(to_check_if_is_hex@ =~= prefix@.push('0'));
        }
    }
    proof {
        lemma_hex_chars(prefix@);
        lemma_leading_hex(bytes);
        lemma_leading_hex_of_padded(bytes);
    }
    proof {
        lemma_without_0x(vanity_prefix_ref@);
    }
    match hex_decode(to_check_if_is_hex.as_str()) {
        Ok(_) => Ok(VanitySearch { prefix: prefix.to_owned(), multisig }),
        Err(error) => {
            let text = hex_error_text(error);
            Err(
                CliError::CommandArgumentError(
                    followed_by("The vanity prefix could not be decoded to hex: ", text.as_str()),
                ),
            )
        },
    }
}

impl VanitySearch {
    /// The address that counts for each key.
    pub fn address_kind(&self) -> (res: AddressKind)
        ensures
            res == (if self.multisig {
                AddressKind::Multisig { sequence_number: 0 }
            } else {
                AddressKind::Standard
            }),
    {
        if self.multisig {
            AddressKind::Multisig { sequence_number: 0 }
        } else {
            AddressKind::Standard
        }
    }

    /// Whether the search ends with a key of this address, written in hex without leading zeros.
    pub fn accepts(&self, short_address: &str) -> (res: bool)
        ensures
            res == self.prefix@.is_prefix_of(short_address@),
    {
        starts_with(short_address, self.prefix.as_str())
    }

    /// The place of the first of these addresses with which the search ends.
    pub fn first_match(&self, short_addresses: &Vec<String>) -> (res: Option<usize>)
        ensures
            match res {
                Some(end) => search_end(self.prefix@, texts(short_addresses@)) == Some(end as nat),
                None => search_end(self.prefix@, texts(short_addresses@)) is None,
            },
    {
        let ghost all = texts(short_addresses@);
        let mut i: usize = 0;
        assert(all.skip(0) =~= all);
        while i < short_addresses.len()
            invariant
                all == texts(short_addresses@),
                i <= short_addresses.len(),
                search_end(self.prefix@, all) == match search_end(
                    self.prefix@,
                    all.skip(i as int),
                ) {
                    Some(end) => Some(end + i as nat),
                    None => None,
                },
            decreases short_addresses.len() - i,
        {
            assert(all.skip(i as int)[0] == short_addresses@[i as int]@);
            assert(all.skip(i as int).drop_first() =~= all.skip(i + 1));
            if self.accepts(short_addresses[i].as_str()) {
                return Some(i);
            }
            i = i + 1;
        }
        None
    }
}

proof fn lemma_leading_hex(bytes: Seq<u8>)
    ensures
        leading_hex(bytes) <= bytes.len(),
        leading_hex(bytes) == bytes.len() <==> forall|i: int|
            0 <= i < bytes.len() ==> hex_byte(#[trigger] bytes[i]),
    decreases bytes.len(),
{
    if bytes.len() > 0 {
        let rest = bytes.drop_first();
        lemma_leading_hex(rest);
        if leading_hex(bytes) == bytes.len() {
            assert forall|i: int| 0 <= i < bytes.len() implies hex_byte(#[trigger] bytes[i]) by {
                if i > 0 {
                    assert(hex_byte(rest[i - 1]));
                }
            }
        }
        if forall|i: int| 0 <= i < bytes.len() ==> hex_byte(#[trigger] bytes[i]) {
            assert(hex_byte(bytes[0]));
            assert forall|i: int| 0 <= i < rest.len() implies hex_byte(#[trigger] rest[i]) by {
                assert(rest[i] == bytes[i + 1]);
            }
        }
    }
}

proof fn lemma_leading_hex_of_padded(bytes: Seq<u8>)
    ensures
        leading_hex(bytes) < bytes.len() ==> leading_hex(bytes.push(0x30)) == leading_hex(bytes),
        leading_hex(bytes) == bytes.len() ==> leading_hex(bytes.push(0x30)) == bytes.len() + 1,
    decreases bytes.len(),
{
    let padded = bytes.push(0x30);
    if bytes.len() == 0 {
        assert(padded.first() == 0x30u8);
        assert(leading_hex(padded.drop_first()) == 0);
    } else {
        assert(padded.first() == bytes.first());
        assert(padded.drop_first() =~= bytes.drop_first().push(0x30));
        lemma_leading_hex_of_padded(bytes.drop_first());
        lemma_leading_hex(bytes.drop_first());
    }
}

proof fn lemma_encode_push_digit(s: Seq<char>)
    ensures
        encode_utf8(s.push('0')) == encode_utf8(s).push(0x30),
    decreases s.len(),
{
    let t = s.push('0');
    if s.len() == 0 {
        assert(t.drop_first() =~= s);
        assert(0x30u32 & 0x7F == 0x30) by (bit_vector);
        assert(encode_utf8(t) =~= encode_utf8(s).push(0x30));
    } else {
        assert(t.drop_first() =~= s.drop_first().push('0'));
        lemma_encode_push_digit(s.drop_first());
        assert(encode_utf8(t) =~= encode_utf8(s).push(0x30));
    }
}

/// A text is made of hex digits exactly if its bytes are.
proof fn lemma_hex_chars(s: Seq<char>)
    ensures
        hex_chars(s) <==> leading_hex(encode_utf8(s)) == encode_utf8(s).len(),
    decreases s.len(),
{
    let bytes = encode_utf8(s);
    lemma_leading_hex(bytes);
    if s.len() > 0 {
        let rest = s.drop_first();
        lemma_hex_chars(rest);
        lemma_leading_hex(encode_utf8(rest));
        lemma_first_byte(s[0]);
        let front = encode_scalar(s[0] as u32);
        assert(bytes[0] == front[0]);
        if hex_char(s[0]) {
            assert(bytes.drop_first() =~= encode_utf8(rest));
            assert(s =~= seq![s[0]] + rest);
            if hex_chars(s) {
                assert forall|i: int| 0 <= i < rest.len() implies hex_char(#[trigger] rest[i]) by {
                    assert(rest[i] == s[i + 1]);
                }
            }
            if hex_chars(rest) {
                assert forall|i: int| 0 <= i < s.len() implies hex_char(#[trigger] s[i]) by {
                    if i > 0 {
                        assert(s[i] == rest[i - 1]);
                    }
                }
            }
        } else {
            assert(!hex_byte(bytes[0]));
        }
    }
}

proof fn lemma_first_byte(c: char)
    ensures
        encode_scalar(c as u32).len() > 0,
        hex_byte(encode_scalar(c as u32)[0]) <==> hex_char(c),
        hex_char(c) ==> encode_scalar(c as u32).len() == 1,
{
    let v = c as u32;
    assert(v <= 0x7F ==> (v & 0x7F) as u8 == v) by (bit_vector);
    assert((0xC0u8 | ((v >> 6) & 0x1F) as u8) >= 0xC0) by (bit_vector);
    assert((0xE0u8 | ((v >> 12) & 0x0F) as u8) >= 0xE0) by (bit_vector);
    assert((0xF0u8 | ((v >> 18) & 0x7) as u8) >= 0xF0) by (bit_vector);
}

/// The prefix may be written with `0x` in front of it or without.
pub proof fn law_0x_is_optional(prefix: Seq<char>)
    requires
        !"0x"@.is_prefix_of(prefix),
    ensures
        without_0x("0x"@ + prefix) == without_0x(prefix),
        without_0x("0x"@ + prefix) == prefix,
        without_0x(prefix) == prefix,
{
    reveal_strlit("0x");
    assert("0x"@.is_prefix_of("0x"@ + prefix));
    assert(("0x"@ + prefix).skip(2) =~= prefix);
}

/// The views of a vector of texts.
pub open spec fn texts(strings: Seq<String>) -> Seq<Seq<char>> {
    Seq::new(strings.len(), |i: int| strings[i]@)
}

/// The place of the first of these addresses that begins with `prefix`.
pub open spec fn search_end(prefix: Seq<char>, addresses: Seq<Seq<char>>) -> Option<nat>
    decreases addresses.len(),
{
    if addresses.len() == 0 {
        None
    } else if prefix.is_prefix_of(addresses[0]) {
        Some(0)
    } else {
        match search_end(prefix, addresses.drop_first()) {
            Some(i) => Some(i + 1),
            None => None,
        }
    }
}

/// A search that goes from key to key ends at the first whose address begins
/// with the prefix, and goes on while there is none.
pub proof fn law_search_ends_at_first_match(prefix: Seq<char>, addresses: Seq<Seq<char>>)
    ensures
        match search_end(prefix, addresses) {
            Some(end) => {
                &&& end < addresses.len()
                &&& prefix.is_prefix_of(addresses[end as int])
                &&& forall|i: int| 0 <= i < end ==> !prefix.is_prefix_of(#[trigger] addresses[i])
            },
            None => forall|i: int|
                0 <= i < addresses.len() ==> !prefix.is_prefix_of(#[trigger] addresses[i]),
        },
    decreases addresses.len(),
{
    if addresses.len() > 0 && !prefix.is_prefix_of(addresses[0]) {
        let rest = addresses.drop_first();
        law_search_ends_at_first_match(prefix, rest);
        assert forall|i: int| 0 < i < addresses.len() implies addresses[i] == rest[i - 1] by {}
        match search_end(prefix, rest) {
            Some(end) => {
                assert forall|i: int| 0 <= i < end + 1 implies !prefix.is_prefix_of(
                    #[trigger] addresses[i],
                ) by {
                    if i > 0 {
                        assert(addresses[i] == rest[i - 1]);
                    }
                }
            },
            None => {
                assert forall|i: int| 0 <= i < addresses.len() implies !prefix.is_prefix_of(
                    #[trigger] addresses[i],
                ) by {
                    if i > 0 {
                        assert(addresses[i] == rest[i - 1]);
                    }
                }
            },
        }
    }
}

proof fn lemma_without_0x(s: Seq<char>)
    ensures
        "0x"@.is_prefix_of(s) ==> s == "0x"@ + without_0x(s),
        !"0x"@.is_prefix_of(s) ==> s == without_0x(s),
        hex_chars(without_0x(s)) <==> forall|i: int|
            (if "0x"@.is_prefix_of(s) {
                2int
            } else {
                0int
            }) <= i < s.len() ==> hex_char(#[trigger] s[i]),
{
    reveal_strlit("0x");
    if "0x"@.is_prefix_of(s) {
        let digits = without_0x(s);
        assert(s =~= "0x"@ + digits);
        if hex_chars(digits) {
            assert forall|i: int| 2 <= i < s.len() implies hex_char(#[trigger] s[i]) by {
                assert(hex_char(digits[i - 2]));
            }
        }
        if forall|i: int| 2 <= i < s.len() ==> hex_char(#[trigger] s[i]) {
            assert forall|i: int| 0 <= i < digits.len() implies hex_char(#[trigger] digits[i]) by {
                assert(digits[i] == s[i + 2]);
            }
        }
    }
}

/// Hex digits are searched for as they are given, one for one, with `0x` in front
/// of them or without; and every address that a search for them accepts begins with
/// them.
pub proof fn law_prefix_is_searched_for(prefix: Seq<char>, search: Seq<char>, address: Seq<char>)
    requires
        forall|i: int| 0 <= i < prefix.len() ==> hex_char(#[trigger] prefix[i]),
        search == without_0x(prefix) || search == without_0x("0x"@ + prefix),
    ensures
        search == prefix,
        search_end(search, seq![address]) is Some <==> prefix.len() <= address.len() && forall|
            i: int,
        |
            0 <= i < prefix.len() ==> #[trigger] address[i] == prefix[i],
{
    reveal_strlit("0x");
    assert(!"0x"@.is_prefix_of(prefix)) by {
        if "0x"@.is_prefix_of(prefix) {
            assert("0x"@[1] == 'x');
            assert(prefix[1] == "0x"@[1]);
            assert(hex_char(prefix[1]));
        }
    }
    law_0x_is_optional(prefix);
    let one = seq![address];
    assert(one.drop_first() =~= Seq::empty());
    reveal_with_fuel(search_end, 2);
    if prefix.len() <= address.len() && forall|i: int|
        0 <= i < prefix.len() ==> #[trigger] address[i] == prefix[i] {
        assert(prefix =~= address.subrange(0, prefix.len() as int));
    }
    if prefix.is_prefix_of(address) {
        assert forall|i: int| 0 <= i < prefix.len() implies #[trigger] address[i] == prefix[i] by {
            assert(address.subrange(0, prefix.len() as int)[i] == address[i]);
        }
    }
}

/// The hex digits are the decimal ones and the letters from a to f in either case.
pub proof fn law_hex_digits(c: char)
    ensures
        hex_char(c) <==> "0123456789abcdefABCDEF"@.contains(c),
{
    let digits = "0123456789abcdefABCDEF"@;
    reveal_strlit("0123456789abcdefABCDEF");
    if hex_char(c) {
        if '0' <= c <= '9' {
            assert(digits[c as int - '0' as int] == c);
        } else if 'a' <= c <= 'f' {
            assert(digits[c as int - 'a' as int + 10] == c);
        } else {
            assert(digits[c as int - 'A' as int + 16] == c);
        }
    }
}

/// The complaint is about the first byte that is no hex digit: it names its place
/// and the character of the same number.
pub proof fn law_first_complaint(bytes: Seq<u8>, place: int)
    requires
        0 <= place < bytes.len() <= usize::MAX,
        forall|i: int| 0 <= i < place ==> hex_byte(#[trigger] bytes[i]),
        !hex_byte(bytes[place]),
    ensures
        first_complaint(bytes) matches HexError::InvalidHexCharacter { c, index } && index == place
            && c == bytes[place] as char,
        hex_error_message(first_complaint(bytes)) == "Invalid character "@ + char_debug_text(
            bytes[place] as char,
        ) + " at position "@ + crate::text::decimal(place as nat),
{
    lemma_leading_hex_at(bytes, place);
}

proof fn lemma_leading_hex_at(bytes: Seq<u8>, place: int)
    requires
        0 <= place < bytes.len(),
        forall|i: int| 0 <= i < place ==> hex_byte(#[trigger] bytes[i]),
        !hex_byte(bytes[place]),
    ensures
        leading_hex(bytes) == place,
    decreases place,
{
    if place > 0 {
        let rest = bytes.drop_first();
        assert(hex_byte(bytes[0]));
        assert forall|i: int| 0 <= i < place - 1 implies hex_byte(#[trigger] rest[i]) by {
            assert(rest[i] == bytes[i + 1]);
        }
        lemma_leading_hex_at(rest, place - 1);
    }
}

/// A search accepts an address exactly if it begins with the digits searched for.
pub proof fn law_accepted_addresses(search: VanitySearch, short_address: &str, res: bool)
    requires
        call_ensures(VanitySearch::accepts, (&search, short_address), res),
    ensures
        res <==> {
            &&& search.prefix@.len() <= short_address@.len()
            &&& forall|i: int|
                0 <= i < search.prefix@.len() ==> #[trigger] short_address@[i] == search.prefix@[i]
        },
{
    let prefix = search.prefix@;
    let address = short_address@;
    if prefix.len() <= address.len() && (forall|i: int|
        0 <= i < prefix.len() ==> #[trigger] address[i] == prefix[i]) {
        assert(prefix =~= address.subrange(0, prefix.len() as int));
    }
    if prefix.is_prefix_of(address) {
        assert forall|i: int| 0 <= i < prefix.len() implies #[trigger] address[i] == prefix[i] by {
            assert(address.subrange(0, prefix.len() as int)[i] == address[i]);
        }
    }
}

/// The address that counts is that of the multisig account which the first
/// transaction creates, or else the key's own.
pub proof fn law_address_that_counts(search: VanitySearch, kind: AddressKind)
    requires
        call_ensures(VanitySearch::address_kind, (&search,), kind),
    ensures
        search.multisig <==> kind == (AddressKind::Multisig { sequence_number: 0 }),
        !search.multisig <==> kind == AddressKind::Standard,
{
}

/// Whatever is given is searched for digit by digit, but for `0x` in front of it, and
/// for the kind of account that was asked for; and it is refused exactly where another
/// character than a hex digit stands in it.
pub proof fn law_search_is_for_what_was_given(
    given: &str,
    multisig: bool,
    res: CliTypedResult<VanitySearch>,
)
    requires
        call_ensures(generate_vanity_account_ed25519, (given, multisig), res),
    ensures
        res matches Ok(search) ==> search.multisig == multisig,
        hex_chars(given@) ==> (res matches Ok(search) && search.prefix@ == given@),
        forall|digits: Seq<char>|
            given@ == #[trigger] ("0x"@ + digits) && hex_chars(digits) ==> (res matches Ok(search)
                && search.prefix@ == digits),
        res matches Ok(search) ==> hex_chars(search.prefix@) && (given@ == search.prefix@ || given@
            == "0x"@ + search.prefix@),
        res matches Err(error) ==> error matches CliError::CommandArgumentError(message) && exists|
            text: Seq<char>,
        |
            message@ == #[trigger] ("The vanity prefix could not be decoded to hex: "@ + text),
{
    reveal_strlit("0x");
    if hex_chars(given@) {
        if "0x"@.is_prefix_of(given@) {
            assert("0x"@[1] == 'x');
            assert(given@[1] == "0x"@[1]);
            assert(hex_char(given@[1]));
        }
    }
    assert forall|digits: Seq<char>|
        given@ == #[trigger] ("0x"@ + digits) && hex_chars(digits) implies (res matches Ok(search)
        && search.prefix@ == digits) by {
        assert(given@.skip(2) =~= digits);
        assert("0x"@.is_prefix_of(given@));
    }
}

/// The place of the first match is that of an address which the search accepts, and
/// it accepts none before it; where there is none, it accepts no address at all.
pub proof fn law_first_match(
    search: VanitySearch,
    short_addresses: Vec<String>,
    res: Option<usize>,
    i: int,
)
    requires
        call_ensures(VanitySearch::first_match, (&search, &short_addresses), res),
        0 <= i < short_addresses@.len(),
    ensures
        res matches Some(end) ==> end < short_addresses@.len() && search.prefix@.is_prefix_of(
            short_addresses@[end as int]@,
        ),
        res matches Some(end) ==> i < end ==> !search.prefix@.is_prefix_of(short_addresses@[i]@),
        res is None ==> !search.prefix@.is_prefix_of(short_addresses@[i]@),
{
    let all = texts(short_addresses@);
    law_search_ends_at_first_match(search.prefix@, all);
    assert(all[i] == short_addresses@[i]@);
}

/// What is refused is refused for its first byte that is no hex digit, behind `0x` if
/// that is there: the message shows the character and its place.
pub proof fn law_refusal_names_the_character(
    given: &str,
    digits: Seq<char>,
    multisig: bool,
    place: int,
    res: CliTypedResult<VanitySearch>,
)
    requires
        given@ == "0x"@ + digits || given@ == digits && !"0x"@.is_prefix_of(digits),
        0 <= place < encode_utf8(digits).len() <= usize::MAX,
        forall|i: int| 0 <= i < place ==> hex_byte(#[trigger] encode_utf8(digits)[i]),
        !hex_byte(encode_utf8(digits)[place]),
        call_ensures(generate_vanity_account_ed25519, (given, multisig), res),
    ensures
        res matches Err(CliError::CommandArgumentError(message)) && message@
            == "The vanity prefix could not be decoded to hex: "@ + ("Invalid character "@
            + char_debug_text(encode_utf8(digits)[place] as char) + " at position "@
            + crate::text::decimal(place as nat)),
{
    reveal_strlit("0x");
    if given@ == "0x"@ + digits {
        assert("0x"@.is_prefix_of(given@));
        assert(given@.skip(2) =~= digits);
    }
    law_first_complaint(encode_utf8(digits), place);
    lemma_hex_chars(digits);
    lemma_leading_hex(encode_utf8(digits));
}

} // verus!
