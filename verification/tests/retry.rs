use rindexer::retry::{
    bounds_from, hints_from, limit_from, provider_hints, retry_from_hints, retry_is_representable,
    retry_with_block_range, BlockBounds, BlockNumber, Captures, JsonRpcError, ProviderHints,
    RetryWithBlockRangeResult,
};

fn error(code: i64, message: &str, data: Option<&str>) -> JsonRpcError {
    JsonRpcError { code, message: message.to_string(), data: data.map(|d| d.to_string()) }
}

fn groups(first: &str, second: &str) -> Option<Captures> {
    Some(Captures { first: Some(first.to_string()), second: Some(second.to_string()) })
}

fn proposed(from: u64, to: u64) -> Option<RetryWithBlockRangeResult> {
    Some(RetryWithBlockRangeResult {
        from: BlockNumber::Number(from),
        to: BlockNumber::Number(to),
        max_block_range: None,
    })
}

fn of_length(from: u64, length: u64) -> Option<RetryWithBlockRangeResult> {
    Some(RetryWithBlockRangeResult {
        from: BlockNumber::Number(from),
        to: BlockNumber::Number(from + length),
        max_block_range: Some(length),
    })
}

const NO_HINTS: ProviderHints =
    ProviderHints { suggested: None, too_wide: false, limited_to: None, too_large: false };

#[test]
fn alchemy_proposes_a_range() {
    let error = error(-32602, "... this block range should work: [0x1a, 0xFF] ...", None);
    assert_eq!(retry_with_block_range(&error, 1, 1000), proposed(26, 255));
}

#[test]
fn alchemy_proposes_a_range_in_the_data() {
    let data = "\"this block range should work: [0x0,0x10]\"";
    let error = error(-32602, "Log response size exceeded", Some(data));
    assert_eq!(retry_with_block_range(&error, 1, 1000), proposed(0, 16));
}

#[test]
fn message_is_read_before_the_data() {
    let error = error(
        0,
        "this block range should work: [0x1, 0x2]",
        Some("this block range should work: [0x3, 0x4]"),
    );
    assert_eq!(retry_with_block_range(&error, 1, 1000), proposed(1, 2));
}

#[test]
fn infura_proposes_a_range() {
    let error = error(
        -32005,
        "query returned more than 10000 results. Try with this block range [0xABC,   0xabd].",
        None,
    );
    assert_eq!(retry_with_block_range(&error, 1, 1_000_000), proposed(2748, 2749));
}

#[test]
fn infura_proposes_a_range_in_the_data() {
    let error = error(-32005, "too many", Some("Try with this block range [0x1, 0x2]."));
    assert_eq!(retry_with_block_range(&error, 1, 9), proposed(1, 2));
}

#[test]
fn widest_hexadecimal_number_is_read() {
    let error = error(0, "this block range should work: [0x0000000000000001, 0xffffffffffffffff]", None);
    assert_eq!(retry_with_block_range(&error, 5, 9), proposed(1, u64::MAX));
}

#[test]
fn hexadecimal_number_of_more_than_64_bits_is_passed_over() {
    let error = error(0, "this block range should work: [0x1, 0x10000000000000000]", None);
    assert_eq!(retry_with_block_range(&error, 10, 20), of_length(10, 5));
}

#[test]
fn ankr_refuses_a_wide_range() {
    let error = error(-32600, "block range is too wide", None);
    assert_eq!(retry_with_block_range(&error, 100, 90_000), of_length(100, 3000));
}

#[test]
fn ankr_is_known_by_its_code() {
    let error = error(-32601, "block range is too wide", None);
    assert_eq!(retry_with_block_range(&error, 100, 200), of_length(100, 50));
}

#[test]
fn ankr_is_not_looked_for_in_the_data() {
    let error = error(-32600, "rejected", Some("block range is too wide"));
    assert_eq!(retry_with_block_range(&error, 100, 200), of_length(100, 50));
}

#[test]
fn quicknode_names_a_number_of_blocks() {
    let error = error(-32614, "eth_getLogs is limited to a 10,000 range", None);
    assert_eq!(retry_with_block_range(&error, 7, 900_000), of_length(7, 10_000));
}

#[test]
fn number_of_blocks_may_have_points_and_stand_in_the_data() {
    let error = error(0, "", Some("limited to a 2.048 blocks range"));
    assert_eq!(retry_with_block_range(&error, 7, 900_000), of_length(7, 2048));
}

#[test]
fn number_of_blocks_without_digits_is_nothing() {
    let error = error(0, "limited to a ., range", None);
    assert_eq!(retry_with_block_range(&error, 7, 900_000), of_length(7, 0));
}

#[test]
fn number_of_blocks_in_other_digits_is_passed_over() {
    let error = error(0, "limited to a \u{0663} range", None);
    assert_eq!(retry_with_block_range(&error, 10, 14), of_length(10, 2));
}

#[test]
fn number_of_blocks_past_64_bits_is_passed_over() {
    let error = error(0, "limited to a 18446744073709551616 range", None);
    assert_eq!(retry_with_block_range(&error, 10, 14), of_length(10, 2));
}

#[test]
fn base_refuses_a_large_range() {
    let error = error(0, "block range too large", None);
    assert_eq!(retry_with_block_range(&error, 100, 90_000), of_length(100, 2000));
}

#[test]
fn other_errors_halve_the_range() {
    let error = error(0, "timeout", None);
    assert_eq!(retry_with_block_range(&error, 10, 21), of_length(10, 5));
    assert_eq!(retry_with_block_range(&error, 10, 11), of_length(10, 0));
}

#[test]
fn range_of_one_block_has_no_retry() {
    let error = error(0, "timeout", None);
    assert_eq!(retry_with_block_range(&error, 10, 10), None);
}

#[test]
fn proposal_comes_before_a_number_of_blocks() {
    let error = error(
        -32600,
        "block range is too wide, limited to a 5; Try with this block range [0x1, 0x2]",
        None,
    );
    assert_eq!(retry_with_block_range(&error, 1, 9), proposed(1, 2));
}

#[test]
fn hints_hold_all_that_an_error_says() {
    let error = error(
        -32600,
        "block range is too wide, block range too large, limited to a 5",
        None,
    );
    let hints = ProviderHints {
        suggested: None,
        too_wide: true,
        limited_to: Some(5),
        too_large: true,
    };
    assert_eq!(provider_hints(&error), hints);
    assert_eq!(retry_from_hints(hints, 1, 9), of_length(1, 3000));
}

#[test]
fn hints_come_from_the_matches() {
    let error = error(0, "", None);
    let hints = hints_from(&error, &None, &groups("a", "b"), &groups("1,5", ""));
    assert_eq!(
        hints,
        ProviderHints {
            suggested: Some(BlockBounds { from: BlockNumber::Number(10), to: BlockNumber::Number(11) }),
            limited_to: Some(15),
            ..NO_HINTS
        }
    );
}

#[test]
fn bounds_are_blocks_of_any_kind() {
    let bounds = |from, to| Some(BlockBounds { from, to });
    assert_eq!(
        bounds_from(&groups("earliest", "latest"), ""),
        bounds(BlockNumber::Earliest, BlockNumber::Latest)
    );
    assert_eq!(
        bounds_from(&groups("safe", "finalized"), ""),
        bounds(BlockNumber::Safe, BlockNumber::Finalized)
    );
    assert_eq!(
        bounds_from(&groups("pending", "+17"), ""),
        bounds(BlockNumber::Pending, BlockNumber::Number(17))
    );
    assert_eq!(
        bounds_from(&groups("0", "018446744073709551615"), ""),
        bounds(BlockNumber::Number(0), BlockNumber::Number(u64::MAX))
    );
    assert_eq!(
        bounds_from(&groups("", "10"), "0x"),
        bounds(BlockNumber::Number(0), BlockNumber::Number(16))
    );
    assert_eq!(bounds_from(&groups("", "1"), ""), None);
    assert_eq!(bounds_from(&groups("+", "1"), ""), None);
    assert_eq!(bounds_from(&groups("1", "-1"), ""), None);
    assert_eq!(bounds_from(&groups("1", "18446744073709551616"), ""), None);
    assert_eq!(bounds_from(&groups("g", "1"), "0x"), None);
    assert_eq!(bounds_from(&Some(Captures { first: None, second: None }), ""), None);
    assert_eq!(bounds_from(&None, ""), None);
}

#[test]
fn limit_is_a_decimal_number() {
    assert_eq!(limit_from(&groups("1.000,5", "")), Some(10_005));
    assert_eq!(limit_from(&groups("", "")), Some(0));
    assert_eq!(limit_from(&groups("18446744073709551615", "")), Some(u64::MAX));
    assert_eq!(limit_from(&groups("18446744073709551616", "")), None);
    assert_eq!(limit_from(&groups("+1", "")), None);
    assert_eq!(limit_from(&None), None);
}

#[test]
fn retry_past_the_last_block_number_is_noticed() {
    let wide = ProviderHints { too_wide: true, ..NO_HINTS };
    assert!(retry_is_representable(wide, u64::MAX - 3000, u64::MAX));
    assert!(!retry_is_representable(wide, u64::MAX - 2999, u64::MAX));
    let limited = ProviderHints { limited_to: Some(u64::MAX), ..NO_HINTS };
    assert!(retry_is_representable(limited, 0, 1));
    assert!(!retry_is_representable(limited, 1, 1));
    let large = ProviderHints { too_large: true, ..NO_HINTS };
    assert!(!retry_is_representable(large, u64::MAX - 1999, u64::MAX));
    assert!(retry_is_representable(NO_HINTS, 0, u64::MAX));
}

#[test]
fn fallback_retry_shrinks() {
    for to in 11..40 {
        let retry = retry_from_hints(NO_HINTS, 10, to).unwrap();
        assert_eq!(retry.from, BlockNumber::Number(10));
        match retry.to {
            BlockNumber::Number(end) => assert!(10 <= end && end < to),
            _ => panic!("not a numbered block"),
        }
    }
}
