use snowland::countdown::CountdownModuleRenderer;
use snowland::instances::{instance_from_socket_name, next_free_instance, socket_file_name};
use snowland::text::{decimal_string, padded_left, parse_i32, parse_usize};

#[test]
fn integers_render_in_decimal() {
    assert_eq!(decimal_string(0), "0");
    assert_eq!(decimal_string(-42), "-42");
    assert_eq!(decimal_string(1_000_000), "1000000");
    assert_eq!(decimal_string(i64::MIN), "-9223372036854775808");
    assert_eq!(decimal_string(i64::MAX), "9223372036854775807");
}

#[test]
fn padding_fills_on_the_left() {
    assert_eq!(padded_left("5", '0', 3), "005");
    assert_eq!(padded_left("-5", '0', 3), "0-5");
    assert_eq!(padded_left("1234", '0', 2), "1234");
    assert_eq!(padded_left("", '*', 2), "**");
}

#[test]
fn unsigned_parsing_matches_str_parse() {
    for text in ["42", "+42", "", "+", "-1", "007", "4a", "18446744073709551615", "18446744073709551616", "99999999999999999999999"] {
        assert_eq!(parse_usize(text.as_bytes()), text.parse::<usize>().ok(), "{}", text);
    }
}

#[test]
fn signed_parsing_matches_str_parse() {
    for text in ["7", "+7", "-7", "-", "+", "", "2147483647", "2147483648", "-2147483648", "-2147483649", "1_0", " 1"] {
        assert_eq!(parse_i32(text.as_bytes()), text.parse::<i32>().ok(), "{}", text);
    }
}

#[test]
fn countdown_text_pads_and_pluralizes() {
    assert_eq!(
        CountdownModuleRenderer::countdown_string(1, 25, 61, 59),
        "001 day,  01 hour,  01 minute  and 59 seconds"
    );
    assert_eq!(
        CountdownModuleRenderer::countdown_string(12, 290, 17_422, 1_045_381),
        "012 days, 02 hours, 22 minutes and 01 second "
    );
    assert_eq!(
        CountdownModuleRenderer::countdown_string(0, -1, -61, -5),
        "000 days, -1 hours, -1 minutes and -5 seconds"
    );
}

#[test]
fn pluralize_picks_the_singular_only_for_one() {
    assert_eq!(CountdownModuleRenderer::pluralize(1, "day", "days"), "day");
    assert_eq!(CountdownModuleRenderer::pluralize(0, "day", "days"), "days");
    assert_eq!(CountdownModuleRenderer::pluralize(-1, "day", "days"), "days");
    assert_eq!(CountdownModuleRenderer::pluralize(2, "day", "days"), "days");
}

#[test]
fn socket_files_are_named_after_the_instance() {
    assert_eq!(socket_file_name(1), "host-ipc-1.socket");
    assert_eq!(socket_file_name(12), "host-ipc-12.socket");
}

#[test]
fn the_instance_number_is_read_between_prefix_and_suffix() {
    assert_eq!(instance_from_socket_name("host-ipc-12.socket"), Some(12));
    assert_eq!(instance_from_socket_name("host-ipc-123.socket"), Some(123));
    assert_eq!(instance_from_socket_name("host-ipc-5.socket"), Some(5));
    assert_eq!(instance_from_socket_name("host-ipc-3.socket"), Some(3));
    assert_eq!(instance_from_socket_name("host-ipc-.socket"), None);
    assert_eq!(instance_from_socket_name("host-ipc-+4.socket"), Some(4));
    assert_eq!(instance_from_socket_name("host-ipc-1x.socket"), None);
    assert_eq!(instance_from_socket_name("host-ipc-12.sock"), None);
    assert_eq!(instance_from_socket_name("other-12.socket"), None);
    assert_eq!(instance_from_socket_name("notes.txt"), None);
    assert_eq!(instance_from_socket_name(""), None);
}

#[test]
fn socket_file_names_read_back_as_their_instance() {
    for instance in [1usize, 3, 9, 10, 12, 4096, usize::MAX] {
        assert_eq!(instance_from_socket_name(&socket_file_name(instance)), Some(instance));
    }
    let mut found: Vec<usize> = ["host-ipc-3.socket", "host-ipc-12.socket", "notes.txt"]
        .iter()
        .filter_map(|name| instance_from_socket_name(name))
        .collect();
    found.sort();
    assert_eq!(found, vec![3, 12]);
}

#[test]
fn a_new_host_takes_the_smallest_free_number() {
    assert_eq!(next_free_instance(&[]), 1);
    assert_eq!(next_free_instance(&[1, 2, 4]), 3);
    assert_eq!(next_free_instance(&[2, 3]), 1);
    assert_eq!(next_free_instance(&[3, 1, 2, 2]), 4);
    assert_eq!(next_free_instance(&[0]), 1);
}

#[test]
fn remaining_time_counts_whole_units_toward_zero() {
    assert_eq!(CountdownModuleRenderer::remaining_time(90_061_000, 0, 0), (1, 25, 1501, 90_061));
    assert_eq!(CountdownModuleRenderer::remaining_time(1_000, 0, 500_000_000), (0, 0, 0, 0));
    assert_eq!(CountdownModuleRenderer::remaining_time(1_500, 0, 400_000_000), (0, 0, 0, 1));
    assert_eq!(CountdownModuleRenderer::remaining_time(-1_500, 0, 0), (0, 0, 0, -1));
    assert_eq!(CountdownModuleRenderer::remaining_time(0, 90_061, 1), (-1, -25, -1501, -90_061));
    assert_eq!(CountdownModuleRenderer::remaining_time(i64::MAX, 0, 0).3, i64::MAX / 1000);
}

#[test]
fn countdown_text_is_that_of_the_given_instant() {
    let now_secs: i64 = 1_700_000_000;
    let target = (now_secs + 3 * 86_400 + 5 * 3_600 + 7 * 60 + 30) * 1_000 + 500;
    assert_eq!(
        CountdownModuleRenderer::make_countdown_string(target, now_secs, 250_000_000),
        "003 days, 05 hours, 07 minutes and 30 seconds"
    );
    assert_eq!(
        CountdownModuleRenderer::make_countdown_string(now_secs * 1_000 - 61_500, now_secs, 0),
        "000 days, 00 hours, -1 minutes and -1 seconds"
    );
    assert_eq!(
        CountdownModuleRenderer::make_countdown_string(now_secs * 1_000 + 1_000, now_secs, 1),
        "000 days, 00 hours, 00 minutes and 00 seconds"
    );
}

#[test]
fn countdown_counts_from_the_clock() {
    let now = chrono::Local::now();
    let target = now.timestamp_millis() + ((2 * 86_400 + 3_600) * 1_000) + 500;
    assert_eq!(
        CountdownModuleRenderer::make_countdown_string(target, now.timestamp(), now.timestamp_subsec_nanos()),
        "002 days, 01 hour,  00 minutes and 00 seconds"
    );
}
