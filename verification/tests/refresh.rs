use fas_rs::error::SensorError;
use fas_rs::refresh::parse_refresh_rate;

#[test]
fn the_rate_stands_before_the_decimal_point() {
    assert_eq!(parse_refresh_rate(b"  refresh-rate: 60.000004 Hz\n"), Ok(Some(60)));
    assert_eq!(parse_refresh_rate(b"refresh-rate:120.0"), Ok(Some(120)));
    assert_eq!(parse_refresh_rate(b"refresh-rate: 90"), Ok(Some(90)));
}

#[test]
fn the_first_line_that_mentions_the_rate_counts() {
    let dump = b"Display 0\n  width: 1080\n  refresh-rate : 144.00 fps\n  refresh-rate: 60.0\n";
    assert_eq!(parse_refresh_rate(dump), Ok(Some(144)));
}

#[test]
fn a_dump_without_the_rate_tells_nothing() {
    assert_eq!(parse_refresh_rate(b""), Ok(None));
    assert_eq!(parse_refresh_rate(b"\n\n"), Ok(None));
    assert_eq!(parse_refresh_rate(b"refresh: 60.0\nrate: 60.0\nrefresh-rat: 60\n"), Ok(None));
    assert_eq!(parse_refresh_rate(b"refresh-\nrate: 60\n"), Ok(None));
}

#[test]
fn a_line_without_a_colon_tells_nothing() {
    assert_eq!(parse_refresh_rate(b"refresh-rate 60.0\nrefresh-rate: 90.0\n"), Ok(None));
}

#[test]
fn the_rate_ends_at_the_next_colon() {
    assert_eq!(parse_refresh_rate(b"refresh-rate: 120 : 60.0"), Ok(Some(120)));
    assert_eq!(parse_refresh_rate(b"refresh-rate: 30:60.0"), Ok(Some(30)));
    assert_eq!(parse_refresh_rate(b"mode: 7 : refresh-rate: 60.0"), Ok(Some(7)));
}

#[test]
fn white_space_around_the_rate_is_dropped() {
    assert_eq!(parse_refresh_rate(b"refresh-rate:\t 75 \t.0\r\n"), Ok(Some(75)));
    assert_eq!(parse_refresh_rate(b"refresh-rate:48\r\n"), Ok(Some(48)));
    assert_eq!(parse_refresh_rate(b"refresh-rate: +60\n"), Ok(Some(60)));
    assert_eq!(parse_refresh_rate(b"refresh-rate: 0.5\n"), Ok(Some(0)));
    assert_eq!(parse_refresh_rate(b"refresh-rate: 4294967295.9"), Ok(Some(4294967295)));
}

#[test]
fn what_is_no_whole_number_is_an_error() {
    assert_eq!(parse_refresh_rate(b"refresh-rate: fast\n"), Err(SensorError::Unparseable));
    assert_eq!(parse_refresh_rate(b"refresh-rate: 60 Hz\n"), Err(SensorError::Unparseable));
    assert_eq!(parse_refresh_rate(b"refresh-rate: -60.0\n"), Err(SensorError::Unparseable));
    assert_eq!(parse_refresh_rate(b"refresh-rate: .5\n"), Err(SensorError::Unparseable));
    assert_eq!(parse_refresh_rate(b"refresh-rate:\n"), Err(SensorError::Unparseable));
    assert_eq!(parse_refresh_rate(b"refresh-rate: :60\n"), Err(SensorError::Unparseable));
    assert_eq!(parse_refresh_rate(b"refresh-rate: 4294967296.0"), Err(SensorError::Unparseable));
    assert_eq!(parse_refresh_rate(b"a: b refresh-rate: 60"), Err(SensorError::Unparseable));
}

fn by_the_standard_library(dump: &str) -> Option<Option<u32>> {
    let Some(line) = dump.lines().find(|line| line.contains("refresh-rate")) else {
        return Some(None);
    };
    let Some(field) = line.split(':').nth(1) else {
        return Some(None);
    };
    let whole = field.split('.').next().unwrap_or("").trim();
    whole.parse().ok().map(Some)
}

#[test]
fn dumps_are_read_as_the_standard_library_reads_them() {
    let dumps = [
        "Display 4619827259835644672 (active) HWC layers:\n  refresh-rate: 120.000000 Hz\n",
        "refresh-rate              : 60.000004 fps\r\nrefresh-rate: 1\n",
        "app-refresh-rate=90\nrefresh-rate: 90.5\n",
        "no such line\n",
        "",
        "refresh-rate\n",
        "refresh-rate: 59.94 : 60\n",
        "x: 3.refresh-rate\n",
        "   refresh-rate :\t 144 .0",
        "refresh-rate: +72.1\n",
        "refresh-rate: -72.1\n",
        "refresh-rate: 4294967295\n",
        "refresh-rate: 4294967296\n",
        "refresh-rate:: 60\n",
        "\n\nrefresh-rate:60\n\n",
    ];
    for dump in dumps {
        assert_eq!(parse_refresh_rate(dump.as_bytes()).ok(), by_the_standard_library(dump));
    }
}
