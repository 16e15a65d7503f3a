use aio_cooler::parse::{
    has_prefix, is_space_char, parse_digits, parse_integer, parse_number, strip_trailing_end,
    to_chars, trim_bounds, word_bounds,
};
use aio_cooler::sysinfo::{
    disk_usage, memory_usage, parse_gpu_temperature, parse_meminfo_value, parse_temperature,
    MEMORY_SPEED,
};
use aio_cooler::{verify_remote_size, DiskInfo, FanInfo, MemoryInfo, MotherboardInfo, NetworkInfo};

fn chars(s: &str) -> Vec<char> {
    s.chars().collect()
}

#[test]
fn white_space_is_what_std_calls_white_space() {
    for code in 0u32..0x11000 {
        if let Some(c) = char::from_u32(code) {
            assert_eq!(is_space_char(c), c.is_whitespace(), "U+{:04X}", code);
        }
    }
}

#[test]
fn characters_of_a_string() {
    assert_eq!(to_chars("aé→ b"), vec!['a', 'é', '→', ' ', 'b']);
    assert_eq!(to_chars(""), Vec::<char>::new());
}

#[test]
fn words_are_found_like_split_whitespace() {
    let samples = [
        "",
        " ",
        "one",
        "  one  ",
        "MemTotal:       16318436 kB",
        "\ta\u{a0}b\u{3000}c\r\n",
        "a  b   c d",
    ];
    for sample in samples {
        let s = chars(sample);
        let expected: Vec<&str> = sample.split_whitespace().collect();
        for n in 0..6 {
            let found = word_bounds(&s, n).map(|(a, b)| s[a..b].iter().collect::<String>());
            assert_eq!(found.as_deref(), expected.get(n).copied(), "{:?} word {}", sample, n);
        }
    }
}

#[test]
fn numbers_are_read_like_std_reads_them() {
    let samples = [
        "0", "7", "007", "+5", "-5", "", "+", "-", "++5", "-+5", "+-5", "12a", "a12", " 12",
        "12 ", "255", "256", "18446744073709551615", "18446744073709551616",
        "99999999999999999999999", "2147483647", "2147483648", "-2147483648", "-2147483649",
        "-0", "+0", "1_000", "٣",
    ];
    for sample in samples {
        let s = chars(sample);
        assert_eq!(parse_number(&s, u64::MAX), sample.parse::<u64>().ok(), "{:?} as u64", sample);
        assert_eq!(
            parse_number(&s, 255),
            sample.parse::<u8>().ok().map(u64::from),
            "{:?} as u8",
            sample
        );
        assert_eq!(parse_integer(&s), sample.parse::<i32>().ok(), "{:?} as i32", sample);
    }
}

#[test]
fn digits_take_no_sign() {
    assert_eq!(parse_digits(&chars("12"), 100), Some(12));
    assert_eq!(parse_digits(&chars("+12"), 100), None);
    assert_eq!(parse_digits(&chars("100"), 100), Some(100));
    assert_eq!(parse_digits(&chars("101"), 100), None);
    assert_eq!(parse_digits(&chars("5"), 3), None);
    assert_eq!(parse_digits(&chars(""), 3), None);
}

#[test]
fn trimming_is_like_std_trim() {
    for sample in ["", "   ", " a b ", "ab", "\n42\n", "\u{2003}x\u{85}"] {
        let s = chars(sample);
        let (a, b) = trim_bounds(&s);
        assert_eq!(s[a..b].iter().collect::<String>(), sample.trim());
    }
}

#[test]
fn trailing_run_is_taken_off() {
    for sample in ["45%", "45%%", "45", "%", "", "4%5%"] {
        let s = chars(sample);
        let end = strip_trailing_end(&s, '%');
        assert_eq!(s[..end].iter().collect::<String>(), sample.trim_end_matches('%'));
    }
}

#[test]
fn prefixes() {
    assert!(has_prefix(&chars("MemTotal: 5"), &chars("MemTotal:")));
    assert!(!has_prefix(&chars("MemTota"), &chars("MemTotal:")));
    assert!(!has_prefix(&chars("memTotal: 5"), &chars("MemTotal:")));
    assert!(has_prefix(&chars("x"), &chars("")));
    assert!(has_prefix(&chars(""), &chars("")));
}

#[test]
fn meminfo_value_is_the_second_word() {
    assert_eq!(parse_meminfo_value("MemTotal:       16318436 kB"), 16318436);
    assert_eq!(parse_meminfo_value("MemTotal:"), 0);
    assert_eq!(parse_meminfo_value(""), 0);
    assert_eq!(parse_meminfo_value("MemTotal: lots kB"), 0);
    assert_eq!(parse_meminfo_value("MemTotal: +12"), 12);
    assert_eq!(parse_meminfo_value("MemTotal: -12"), 0);
    assert_eq!(parse_meminfo_value("a 18446744073709551615"), u64::MAX);
    assert_eq!(parse_meminfo_value("a 18446744073709551616"), 0);
}

#[test]
fn memory_usage_from_meminfo() {
    let content = "MemTotal:       16318436 kB\n\
        MemFree:         1204964 kB\n\
        MemAvailable:    8159218 kB\n\
        Buffers:          412340 kB\n";
    // used = 8159218 kB; load = 8159218 * 100 / 16318436 = 50
    assert_eq!(memory_usage(content), (15935, 7967, 50));
    assert_eq!(memory_usage(""), (0, 0, 0));
    assert_eq!(memory_usage("MemAvailable: 5\nMemTotal: 0\n"), (0, 0, 0));
    assert_eq!(memory_usage("MemTotal: 2048\nMemAvailable: 4096"), (2, 0, 0));
    assert_eq!(memory_usage("MemTotal: 4096\nMemAvailable: 0"), (4, 4, 100));
    assert_eq!(memory_usage("MemTotal: 1\nMemTotal: 3072\nMemAvailable: 1024\r\n"), (3, 2, 66));
    assert_eq!(
        memory_usage("MemTotal: 18446744073709551615\nMemAvailable: 1"),
        (u64::MAX / 1024, (u64::MAX - 1) / 1024, 99)
    );
}

#[test]
fn memory_info_from_meminfo() {
    let info = MemoryInfo::from_meminfo("MemTotal: 4096\nMemAvailable: 1024\n");
    assert_eq!(
        info,
        MemoryInfo { total: 4, used: 3, load: 75, temperature: 0, speed: MEMORY_SPEED }
    );
    assert_eq!(MEMORY_SPEED, 3200);
}

#[test]
fn disk_usage_from_df() {
    let output = " 1K-blocks      Used Use%\n 488245288 104857600  23%\n";
    // 488245288 / 1024 / 1024 = 465; 104857600 / 1024 / 1024 = 100
    assert_eq!(disk_usage(output), (465, 100, 23));
    assert_eq!(disk_usage(""), (0, 0, 0));
    assert_eq!(disk_usage("header only"), (0, 0, 0));
    assert_eq!(disk_usage("header only\n"), (0, 0, 0));
    assert_eq!(disk_usage("h\n1048576 2097152\n"), (0, 0, 0));
    assert_eq!(disk_usage("h\n1048576 x 7%\n"), (1, 0, 7));
    assert_eq!(disk_usage("h\n1048576 2097152 300%\n"), (1, 2, 0));
    assert_eq!(disk_usage("h\n1048576 2097152 100%%\r\nrest"), (1, 2, 100));
    assert_eq!(disk_usage("h\n1048576 2097152 9 more words"), (1, 2, 9));
}

#[test]
fn disk_info_from_df() {
    assert_eq!(
        DiskInfo::from_df("h\n3145728 1048576 33%\n"),
        DiskInfo {
            total: 3,
            used: 1,
            load: 33,
            activity: 0,
            temperature: 0,
            read_speed: 0,
            write_speed: 0
        }
    );
}

#[test]
fn temperature_from_millidegrees() {
    assert_eq!(parse_temperature("45000\n"), Some(45));
    assert_eq!(parse_temperature("  45999  "), Some(45));
    assert_eq!(parse_temperature("999"), Some(0));
    assert_eq!(parse_temperature("0"), Some(0));
    assert_eq!(parse_temperature("255000"), Some(255));
    assert_eq!(parse_temperature("256000"), Some(0));
    assert_eq!(parse_temperature("-5000"), Some(251));
    assert_eq!(parse_temperature("-999"), Some(0));
    assert_eq!(parse_temperature("-256000"), Some(0));
    assert_eq!(parse_temperature("2147483647"), Some((2147483i32 as u8) as u8));
    assert_eq!(parse_temperature("-2147483648"), Some((-2147483i32) as u8));
    assert_eq!(parse_temperature("2147483648"), None);
    assert_eq!(parse_temperature("warm"), None);
    assert_eq!(parse_temperature(""), None);
    assert_eq!(parse_temperature("45 000"), None);
}

#[test]
fn temperature_is_like_std_for_many_values() {
    for value in (-700_000i32..700_000).step_by(997) {
        let text = format!(" {}\n", value);
        assert_eq!(parse_temperature(&text), Some((value / 1000) as u8), "{}", value);
    }
}

#[test]
fn gpu_temperature_from_the_tool_answer() {
    assert_eq!(parse_gpu_temperature("67\n"), Some(67));
    assert_eq!(parse_gpu_temperature(" 255 "), Some(255));
    assert_eq!(parse_gpu_temperature("256"), None);
    assert_eq!(parse_gpu_temperature("-1"), None);
    assert_eq!(parse_gpu_temperature("N/A"), None);
    assert_eq!(parse_gpu_temperature(""), None);
}

#[test]
fn remote_size_is_checked() {
    assert_eq!(verify_remote_size(1234, "1234\n"), Ok(1234));
    assert_eq!(
        verify_remote_size(1234, "1235\n"),
        Err("File size mismatch: local=1234, remote=1235".to_string())
    );
    assert_eq!(
        verify_remote_size(1234, "stat: no such file"),
        Err("File size mismatch: local=1234, remote=0".to_string())
    );
    assert_eq!(verify_remote_size(0, ""), Ok(0));
}

#[test]
fn snapshot_parts_hold_their_fields() {
    let network = NetworkInfo { upload: 1, download: 2 };
    assert_eq!(network, NetworkInfo { upload: 1, download: 2 });
    let board = MotherboardInfo { temperature: 3, pch_temperature: 4 };
    assert_eq!(board.temperature + board.pch_temperature, 7);
    let fan = FanInfo { on_board: true, name: "pump".to_string(), value: 1200 };
    assert!(fan.on_board);
    assert_eq!(fan.name, "pump");
    assert_eq!(fan.value, 1200);
}
