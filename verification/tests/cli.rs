use ruscv_sim::cli::{parse_addr, result_report};
use ruscv_sim::executor::ExecutionResult;

#[test]
fn parse_addr_reads_hex_and_decimal() {
    assert_eq!(parse_addr("0x40008000"), Ok(0x4000_8000));
    assert_eq!(parse_addr("0XABcd"), Ok(0xABCD));
    assert_eq!(parse_addr("1234"), Ok(1234));
    assert_eq!(parse_addr("+7"), Ok(7));
    assert_eq!(parse_addr("0xffffffffffffffff"), Ok(u64::MAX));
    assert_eq!(parse_addr("18446744073709551615"), Ok(u64::MAX));
}

#[test]
fn parse_addr_reports_why_it_fails() {
    assert_eq!(
        parse_addr("0x"),
        Err("Invalid hexadecimal address: cannot parse integer from empty string".to_string())
    );
    assert_eq!(
        parse_addr("0xg1"),
        Err("Invalid hexadecimal address: invalid digit found in string".to_string())
    );
    assert_eq!(
        parse_addr("0x10000000000000000"),
        Err("Invalid hexadecimal address: number too large to fit in target type".to_string())
    );
    assert_eq!(
        parse_addr(""),
        Err("Invalid decimal address: cannot parse integer from empty string".to_string())
    );
    assert_eq!(
        parse_addr("-5"),
        Err("Invalid decimal address: invalid digit found in string".to_string())
    );
    assert_eq!(
        parse_addr("+"),
        Err("Invalid decimal address: invalid digit found in string".to_string())
    );
    assert_eq!(
        parse_addr("18446744073709551616"),
        Err("Invalid decimal address: number too large to fit in target type".to_string())
    );
    assert_eq!(
        parse_addr("12a"),
        Err("Invalid decimal address: invalid digit found in string".to_string())
    );
}

#[test]
fn parse_addr_agrees_with_std() {
    for s in ["0x0", "0x1F", "99", "0x", "x10", "0x+5", "+0x5", "007", "1_000", "0xFFFFFFFFFFFFFFFFF"] {
        let expected = if let Some(rest) = s.strip_prefix("0x") {
            u64::from_str_radix(rest, 16).map_err(|e| format!("Invalid hexadecimal address: {}", e))
        } else {
            s.parse::<u64>().map_err(|e| format!("Invalid decimal address: {}", e))
        };
        assert_eq!(parse_addr(s), expected, "{}", s);
    }
}

#[test]
fn result_report_lists_the_outcome() {
    let res = ExecutionResult {
        exit_code: 0,
        cycles: 12,
        final_pc: 0x8000_0010,
        timed_out: false,
        error: None,
        signature_addr: Some(0x8000_2000),
        signature_data: Some(vec![1, 2, 3, 4]),
    };
    assert_eq!(
        result_report(&res),
        "\n========== Execution Result ==========\nExit Code:  0\nCycles:     12\nFinal PC:   0x0000000080000010\nStatus:     SUCCESS\nSignature:  0x0000000080002000 (4 bytes)\n=====================================\n"
    );
    let res = ExecutionResult {
        exit_code: 1,
        cycles: 5,
        final_pc: 8,
        timed_out: true,
        error: Some("Timeout after 5 cycles".to_string()),
        signature_addr: None,
        signature_data: None,
    };
    assert_eq!(
        result_report(&res),
        "\n========== Execution Result ==========\nExit Code:  1\nCycles:     5\nFinal PC:   0x0000000000000008\nStatus:     TIMEOUT\nError:      Timeout after 5 cycles\n=====================================\n"
    );
    let res = ExecutionResult { exit_code: 3, timed_out: false, error: None, ..res };
    assert!(result_report(&res).contains("Status:     FAILED\n"));
}
