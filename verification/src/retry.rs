//! Block ranges to retry with after a provider has rejected a log request, read from the text of
//! its JSON-RPC error.

use crate::text::{
    all_digits, contains, decimal_text, not_separator, number, occurs, without_separators,
};
use vstd::prelude::*;

verus! {

/// A block as a log filter names it.
#[derive(Clone, Copy, Debug, PartialEq, Eq, Structural)]
pub enum BlockNumber {
    Latest,
    Finalized,
    Safe,
    Earliest,
    Pending,
    Number(u64),
}

/// A JSON-RPC error response. `data` is the text of the additional data, where there is any.
#[derive(Clone, Debug)]
pub struct JsonRpcError {
    pub code: i64,
    pub message: String,
    pub data: Option<String>,
}

/// The first two groups of the leftmost match of a pattern.
#[derive(Clone, Debug)]
pub struct Captures {
    pub first: Option<String>,
    pub second: Option<String>,
}

/// Alchemy names the range that works.
pub const SUGGESTED_RANGE: &'static str =
    r"this block range should work: \[(0x[0-9a-fA-F]+),\s*(0x[0-9a-fA-F]+)]";

/// Infura, Thirdweb, zkSync and Tenderly name the range to try.
pub const RANGE_TO_TRY: &'static str =
    r"Try with this block range \[0x([0-9a-fA-F]+),\s*0x([0-9a-fA-F]+)\]";

/// QuickNode, 1RPC, zkEVM, Blast and BlockPI name the number of blocks.
pub const LIMITED_TO: &'static str = r"limited to a ([\d,.]+)";

/// A group as text.
pub open spec fn group(found: Option<String>) -> Option<Seq<char>> {
    match found {
        Some(text) => Some(text@),
        None => None,
    }
}

/// The groups of a match as text.
pub open spec fn groups(found: Option<Captures>) -> Option<
    (Option<Seq<char>>, Option<Seq<char>>),
> {
    match found {
        Some(captures) => Some((group(captures.first), group(captures.second))),
        None => None,
    }
}

/// `0x` and at least one hexadecimal digit.
pub open spec fn is_hex_literal(text: Seq<char>) -> bool {
    text.len() > 2 && text[0] == '0' && text[1] == 'x' && all_digits(text.skip(2), 16)
}

/// The block that `text` names: a tag, `0x` and up to 16 hexadecimal digits, or a decimal number
/// (one digit at least, after an optional `+`) that fits in 64 bits.
pub open spec fn block_number_text(text: Seq<char>) -> Option<BlockNumber> {
    if text == "latest"@ {
        Some(BlockNumber::Latest)
    } else if text == "finalized"@ {
        Some(BlockNumber::Finalized)
    } else if text == "safe"@ {
        Some(BlockNumber::Safe)
    } else if text == "earliest"@ {
        Some(BlockNumber::Earliest)
    } else if text == "pending"@ {
        Some(BlockNumber::Pending)
    } else if text.len() >= 2 && text[0] == '0' && text[1] == 'x' {
        let digits = text.skip(2);
        if digits.len() <= 16 && all_digits(digits, 16) {
            Some(BlockNumber::Number(number(digits, 16) as u64))
        } else {
            None
        }
    } else {
        let digits = if text.len() > 0 && text[0] == '+' {
            text.skip(1)
        } else {
            text
        };
        if digits.len() == 0 {
            None
        } else {
            match decimal_text(digits) {
                Some(n) => Some(BlockNumber::Number(n)),
                None => None,
            }
        }
    }
}

/// The first two groups of the leftmost match of the regular expression `pattern` in `text`,
/// where the pattern compiles and there is a match.
pub uninterp spec fn regex_captures(pattern: Seq<char>, text: Seq<char>) -> Option<
    (Option<Seq<char>>, Option<Seq<char>>),
>;

/// Compiles `pattern` with `regex::Regex::new` and looks for it in `text` with
/// `regex::Regex::captures`; nothing is found where the pattern does not compile. What is found
/// depends on the two strings alone. Both groups of [`SUGGESTED_RANGE`] take part in each of its
/// matches, and what they hold is `0x` and hexadecimal digits.
#[verifier::external_body]
fn captures(pattern: &str, text: &str) -> (found: Option<Captures>)
    ensures
        groups(found) == regex_captures(pattern@, text@),
        pattern@ == SUGGESTED_RANGE@ ==> (found matches Some(captures) ==> {
            &&& captures.first matches Some(text) && is_hex_literal(text@)
            &&& captures.second matches Some(text) && is_hex_literal(text@)
        }),
{
    let found = regex::Regex::new(pattern).ok()?.captures(text)?;
    Some(
        Captures {
            first: found.get(1).map(|m| m.as_str().to_string()),
            second: found.get(2).map(|m| m.as_str().to_string()),
        },
    )
}

/// Reads a block number with the `FromStr` impl of `ethers::types::BlockNumber`, which accepts
/// the five tags, hexadecimal text behind `0x`, and what `u64` accepts as decimal text.
#[verifier::external_body]
fn parse_block_number(text: &str) -> (block: Option<BlockNumber>)
    ensures
        block == block_number_text(text@),
{
    match text.parse::<ethers::types::BlockNumber>() {
        Ok(ethers::types::BlockNumber::Latest) => Some(BlockNumber::Latest),
        Ok(ethers::types::BlockNumber::Finalized) => Some(BlockNumber::Finalized),
        Ok(ethers::types::BlockNumber::Safe) => Some(BlockNumber::Safe),
        Ok(ethers::types::BlockNumber::Earliest) => Some(BlockNumber::Earliest),
        Ok(ethers::types::BlockNumber::Pending) => Some(BlockNumber::Pending),
        Ok(ethers::types::BlockNumber::Number(n)) => Some(BlockNumber::Number(n.as_u64())),
        Err(_) => None,
    }
}

/// Reads a decimal number with `ethers::types::U64::from_dec_str`, which accepts digits only,
/// takes the empty string for 0 and rejects what does not fit in 64 bits.
#[verifier::external_body]
fn parse_decimal(text: &str) -> (value: Option<u64>)
    ensures
        value == decimal_text(text@),
{
    ethers::types::U64::from_dec_str(text).ok().map(|n| n.as_u64())
}

/// Two blocks that bound a range, both included.
#[derive(Clone, Copy, Debug, PartialEq, Eq, Structural)]
pub struct BlockBounds {
    pub from: BlockNumber,
    pub to: BlockNumber,
}

/// What a provider's error says about the range that it would accept.
#[derive(Clone, Copy, Debug, PartialEq, Eq, Structural)]
pub struct ProviderHints {
    /// The bounds that the provider proposes.
    pub suggested: Option<BlockBounds>,
    /// Ankr's refusal of a wide range.
    pub too_wide: bool,
    /// The number of blocks that the provider accepts.
    pub limited_to: Option<u64>,
    /// Base's refusal of a large range.
    pub too_large: bool,
}

/// The range to retry with.
#[derive(Clone, Copy, Debug, PartialEq, Eq, Structural)]
pub struct RetryWithBlockRangeResult {
    pub from: BlockNumber,
    pub to: BlockNumber,
    /// The number of blocks that `to` is past `from`; absent where the provider proposed the
    /// range itself.
    pub max_block_range: Option<u64>,
}

/// The bounds that the two groups name, each read behind `prefix`.
pub open spec fn bounds_of(
    found: Option<(Option<Seq<char>>, Option<Seq<char>>)>,
    prefix: Seq<char>,
) -> Option<BlockBounds> {
    match found {
        Some((Some(first), Some(second))) => match (
            block_number_text(prefix + first),
            block_number_text(prefix + second),
        ) {
            (Some(from), Some(to)) => Some(BlockBounds { from, to }),
            _ => None,
        },
        _ => None,
    }
}

/// The number of blocks that the first group names, once its points and commas are left out.
pub open spec fn limit_of(found: Option<(Option<Seq<char>>, Option<Seq<char>>)>) -> Option<u64> {
    match found {
        Some((Some(first), _)) => decimal_text(first.filter(|c: char| not_separator(c))),
        _ => None,
    }
}

/// What an error says, given the matches of the three patterns in it.
pub open spec fn hints_of(
    code: i64,
    message: Seq<char>,
    suggested_range: Option<(Option<Seq<char>>, Option<Seq<char>>)>,
    range_to_try: Option<(Option<Seq<char>>, Option<Seq<char>>)>,
    limited_to: Option<(Option<Seq<char>>, Option<Seq<char>>)>,
) -> ProviderHints {
    ProviderHints {
        suggested: match bounds_of(suggested_range, Seq::empty()) {
            Some(bounds) => Some(bounds),
            None => bounds_of(range_to_try, "0x"@),
        },
        too_wide: occurs(message, "block range is too wide"@) && code == -32600,
        limited_to: limit_of(limited_to),
        too_large: occurs(message, "block range too large"@),
    }
}

/// The text of the additional data; empty where there is none.
pub open spec fn data_text(error: JsonRpcError) -> Seq<char> {
    match error.data {
        Some(data) => data@,
        None => Seq::empty(),
    }
}

/// The match of a pattern in the message or, failing that, in the additional data.
pub open spec fn captured(pattern: Seq<char>, error: JsonRpcError) -> Option<
    (Option<Seq<char>>, Option<Seq<char>>),
> {
    match regex_captures(pattern, error.message@) {
        Some(found) => Some(found),
        None => regex_captures(pattern, data_text(error)),
    }
}

/// What an error says.
pub open spec fn error_hints(error: JsonRpcError) -> ProviderHints {
    hints_of(
        error.code,
        error.message@,
        captured(SUGGESTED_RANGE@, error),
        captured(RANGE_TO_TRY@, error),
        captured(LIMITED_TO@, error),
    )
}

/// How many blocks past the first one the retry reaches, where the provider proposed no bounds:
/// 3000 for Ankr, what the provider says, 2000 for Base, else half the distance of a range of
/// two blocks or more.
pub open spec fn retry_length(hints: ProviderHints, from_block: u64, to_block: u64) -> Option<
    u64,
> {
    if hints.too_wide {
        Some(3000)
    } else if hints.limited_to is Some {
        hints.limited_to
    } else if hints.too_large {
        Some(2000)
    } else if to_block > from_block {
        Some(((to_block - from_block) / 2) as u64)
    } else {
        None
    }
}

/// The last block of the retry is a 64-bit number.
pub open spec fn retry_fits(hints: ProviderHints, from_block: u64, to_block: u64) -> bool {
    hints.suggested is None ==> (retry_length(hints, from_block, to_block) matches Some(length)
        ==> from_block + length <= u64::MAX)
}

/// The range to retry with.
pub open spec fn retry_range(hints: ProviderHints, from_block: u64, to_block: u64) -> Option<
    RetryWithBlockRangeResult,
> {
    match (hints.suggested, retry_length(hints, from_block, to_block)) {
        (Some(bounds), _) => Some(
            RetryWithBlockRangeResult { from: bounds.from, to: bounds.to, max_block_range: None },
        ),
        (None, Some(length)) => Some(
            RetryWithBlockRangeResult {
                from: BlockNumber::Number(from_block),
                to: BlockNumber::Number((from_block + length) as u64),
                max_block_range: Some(length),
            },
        ),
        (None, None) => None,
    }
}

/// The bounds that the two groups of a match name, each read behind `prefix`.
pub fn bounds_from(found: &Option<Captures>, prefix: &str) -> (bounds: Option<BlockBounds>)
    ensures
        bounds == bounds_of(groups(*found), prefix@),
        bounds matches Some(bounds) ==> {
            &&& *found matches Some(captures)
            &&& captures.first matches Some(first) && block_number_text(prefix@ + first@) == Some(
                bounds.from,
            )
            &&& captures.second matches Some(second) && block_number_text(prefix@ + second@)
                == Some(bounds.to)
        },
        bounds is None ==> (*found matches Some(captures) ==> (captures.first matches Some(first)
            ==> (captures.second matches Some(second) ==> block_number_text(prefix@ + first@) is None
            || block_number_text(prefix@ + second@) is None))),
{
    match found {
        Some(captures) => match (&captures.first, &captures.second) {
            (Some(first), Some(second)) => {
                let from_text = prefix.to_owned().concat(first.as_str());
                let to_text = prefix.to_owned().concat(second.as_str());
                match (
                    parse_block_number(from_text.as_str()),
                    parse_block_number(to_text.as_str()),
                ) {
                    (Some(from), Some(to)) => Some(BlockBounds { from, to }),
                    _ => None,
                }
            },
            _ => None,
        },
        None => None,
    }
}

/// The number of blocks that the first group of a match names, once its points and commas are
/// left out.
pub fn limit_from(found: &Option<Captures>) -> (limit: Option<u64>)
    ensures
        limit == limit_of(groups(*found)),
        *found is None ==> limit is None,
        *found matches Some(captures) ==> {
            &&& captures.first is None ==> limit is None
            &&& captures.first matches Some(first) ==> limit == decimal_text(
                first@.filter(|c: char| c != '.' && c != ','),
            )
        },
{
    match found {
        Some(captures) => match &captures.first {
            Some(first) => {
                let digits = without_separators(first.as_str());
                parse_decimal(digits.as_str())
            },
            None => None,
        },
        None => None,
    }
}

/// What an error says, given the matches of [`SUGGESTED_RANGE`], [`RANGE_TO_TRY`] and
/// [`LIMITED_TO`] in it.
pub fn hints_from(
    error: &JsonRpcError,
    suggested_range: &Option<Captures>,
    range_to_try: &Option<Captures>,
    limited_to: &Option<Captures>,
) -> (hints: ProviderHints)
    ensures
        hints == hints_of(
            error.code,
            error.message@,
            groups(*suggested_range),
            groups(*range_to_try),
            groups(*limited_to),
        ),
        hints.too_wide <==> error.code == -32600 && occurs(
            error.message@,
            "block range is too wide"@,
        ),
        hints.too_large <==> occurs(error.message@, "block range too large"@),
        *suggested_range is None && *range_to_try is None ==> hints.suggested is None,
        *limited_to is None ==> hints.limited_to is None,
{
    proof {
        reveal_strlit("");
        assert(""@ =~= Seq::<char>::empty());
    }
    let suggested = match bounds_from(suggested_range, "") {
        Some(bounds) => Some(bounds),
        None => bounds_from(range_to_try, "0x"),
    };
    ProviderHints {
        suggested,
        too_wide: contains(error.message.as_str(), "block range is too wide") && error.code
            == -32600,
        limited_to: limit_from(limited_to),
        too_large: contains(error.message.as_str(), "block range too large"),
    }
}

/// The match of a pattern in the message or, failing that, in the additional data.
fn capture(pattern: &str, error: &JsonRpcError) -> (found: Option<Captures>)
    ensures
        groups(found) == captured(pattern@, *error),
        pattern@ == SUGGESTED_RANGE@ ==> (found matches Some(captures) ==> {
            &&& captures.first matches Some(text) && is_hex_literal(text@)
            &&& captures.second matches Some(text) && is_hex_literal(text@)
        }),
{
    match captures(pattern, error.message.as_str()) {
        Some(found) => Some(found),
        None => match &error.data {
            Some(data) => captures(pattern, data.as_str()),
            None => {
                proof {
                    reveal_strlit("");
                    assert(""@ =~= Seq::<char>::empty());
                }
                captures(pattern, "")
            },
        },
    }
}

/// Text behind `0x` names a numbered block or none.
proof fn lemma_hex_names_a_number(text: Seq<char>)
    requires
        text.len() >= 2,
        text[0] == '0',
        text[1] == 'x',
    ensures
        block_number_text(text) matches Some(block) ==> block is Number,
{
    reveal_strlit("latest");
    reveal_strlit("finalized");
    reveal_strlit("safe");
    reveal_strlit("earliest");
    reveal_strlit("pending");
}

/// What an error says. Bounds that the provider proposes are numbered blocks.
pub fn provider_hints(error: &JsonRpcError) -> (hints: ProviderHints)
    ensures
        hints == error_hints(*error),
        hints.suggested matches Some(bounds) ==> bounds.from is Number && bounds.to is Number,
{
    let suggested_range = capture(SUGGESTED_RANGE, error);
    let range_to_try = capture(RANGE_TO_TRY, error);
    let limited_to = capture(LIMITED_TO, error);
    proof {
        reveal_strlit("0x");
        if let Some((Some(first), Some(second))) = groups(suggested_range) {
            assert(Seq::<char>::empty() + first =~= first);
            assert(Seq::<char>::empty() + second =~= second);
            lemma_hex_names_a_number(first);
            lemma_hex_names_a_number(second);
        }
        if let Some((Some(first), Some(second))) = groups(range_to_try) {
            lemma_hex_names_a_number("0x"@ + first);
            lemma_hex_names_a_number("0x"@ + second);
        }
    }
    hints_from(error, &suggested_range, &range_to_try, &limited_to)
}

/// The range to retry with, given what the error says.
pub fn retry_from_hints(hints: ProviderHints, from_block: u64, to_block: u64) -> (retry: Option<
    RetryWithBlockRangeResult,
>)
    requires
        retry_fits(hints, from_block, to_block),
    ensures
        retry == retry_range(hints, from_block, to_block),
        hints.suggested matches Some(bounds) ==> retry == Some(
            RetryWithBlockRangeResult { from: bounds.from, to: bounds.to, max_block_range: None },
        ),
        hints.suggested is None && hints.too_wide ==> retry == Some(
            RetryWithBlockRangeResult {
                from: BlockNumber::Number(from_block),
                to: BlockNumber::Number((from_block + 3000) as u64),
                max_block_range: Some(3000),
            },
        ),
        hints.suggested is None && !hints.too_wide ==> (hints.limited_to matches Some(limit)
            ==> retry == Some(
            RetryWithBlockRangeResult {
                from: BlockNumber::Number(from_block),
                to: BlockNumber::Number((from_block + limit) as u64),
                max_block_range: Some(limit),
            },
        )),
        hints.suggested is None && !hints.too_wide && hints.limited_to is None && hints.too_large
            ==> retry == Some(
            RetryWithBlockRangeResult {
                from: BlockNumber::Number(from_block),
                to: BlockNumber::Number((from_block + 2000) as u64),
                max_block_range: Some(2000),
            },
        ),
        hints.suggested is None && !hints.too_wide && hints.limited_to is None && !hints.too_large
            ==> if to_block > from_block {
            retry == Some(
                RetryWithBlockRangeResult {
                    from: BlockNumber::Number(from_block),
                    to: BlockNumber::Number((from_block + (to_block - from_block) / 2) as u64),
                    max_block_range: Some(((to_block - from_block) / 2) as u64),
                },
            )
        } else {
            retry is None
        },
{
    if let Some(bounds) = hints.suggested {
        return Some(
            RetryWithBlockRangeResult { from: bounds.from, to: bounds.to, max_block_range: None },
        );
    }
    let length: u64 = if hints.too_wide {
        3000
    } else if let Some(limit) = hints.limited_to {
        limit
    } else if hints.too_large {
        2000
    } else if to_block > from_block {
        (to_block - from_block) / 2
    } else {
        return None;
    };
    Some(
        RetryWithBlockRangeResult {
            from: BlockNumber::Number(from_block),
            to: BlockNumber::Number(from_block + length),
            max_block_range: Some(length),
        },
    )
}

/// Whether the last block of the retry is a 64-bit number.
pub fn retry_is_representable(hints: ProviderHints, from_block: u64, to_block: u64) -> (fits: bool)
    ensures
        fits == retry_fits(hints, from_block, to_block),
        hints.suggested is Some ==> fits,
        hints.suggested is None && hints.too_wide ==> fits == (from_block + 3000 <= u64::MAX),
        hints.suggested is None && !hints.too_wide ==> (hints.limited_to matches Some(limit)
            ==> fits == (from_block + limit <= u64::MAX)),
        hints.suggested is None && !hints.too_wide && hints.limited_to is None ==> fits == (
        !hints.too_large || from_block + 2000 <= u64::MAX),
{
    if hints.suggested.is_some() {
        true
    } else if hints.too_wide {
        from_block <= u64::MAX - 3000
    } else if let Some(limit) = hints.limited_to {
        from_block <= u64::MAX - limit
    } else if hints.too_large {
        from_block <= u64::MAX - 2000
    } else {
        true
    }
}

/// The range to retry with after `error` has answered a request for the blocks from `from_block`
/// to `to_block`. Its bounds are numbered blocks.
pub fn retry_with_block_range(error: &JsonRpcError, from_block: u64, to_block: u64) -> (retry:
    Option<RetryWithBlockRangeResult>)
    requires
        retry_fits(error_hints(*error), from_block, to_block),
    ensures
        retry == retry_range(error_hints(*error), from_block, to_block),
        ({
            let hints = error_hints(*error);
            &&& hints.suggested matches Some(bounds) ==> retry == Some(
                RetryWithBlockRangeResult {
                    from: bounds.from,
                    to: bounds.to,
                    max_block_range: None,
                },
            )
            &&& hints.suggested is None ==> {
                &&& retry matches Some(range) ==> range.from == BlockNumber::Number(from_block)
                &&& hints.too_wide ==> (retry matches Some(range) && range.max_block_range == Some(
                    3000u64,
                ) && range.to == BlockNumber::Number((from_block + 3000) as u64))
                &&& !hints.too_wide ==> (hints.limited_to matches Some(limit) ==> (
                retry matches Some(range) && range.max_block_range == Some(limit) && range.to
                    == BlockNumber::Number((from_block + limit) as u64)))
                &&& !hints.too_wide && hints.limited_to is None && hints.too_large ==> (
                retry matches Some(range) && range.max_block_range == Some(2000u64) && range.to
                    == BlockNumber::Number((from_block + 2000) as u64))
                &&& !hints.too_wide && hints.limited_to is None && !hints.too_large ==> (
                if to_block > from_block {
                    retry matches Some(range) && range.max_block_range == Some(
                        ((to_block - from_block) / 2) as u64,
                    ) && range.to == BlockNumber::Number(
                        (from_block + (to_block - from_block) / 2) as u64,
                    )
                } else {
                    retry is None
                })
            }
        }),
        retry matches Some(range) ==> range.from is Number && range.to is Number,
{
    retry_from_hints(provider_hints(error), from_block, to_block)
}

} // verus!
