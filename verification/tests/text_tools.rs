use rust_samples::base_rune::from_str;
use rust_samples::config_lines::{lines, report_line, report_lines};
use rust_samples::downcast::{receiver, AnyMessage};
use rust_samples::line_reader::{read_until_with_string, vec_to_string, write_response, LineError, NextRead, RequestReader};
use rust_samples::markdown_page::emphasis_page;
use rust_samples::proxy_config::{home_dir, usage, webui_settings, Args};
use rust_samples::tasks::{current_thread_name, task};
use rust_samples::text::decimal_string;

#[test]
fn decimal_formatting() {
    assert_eq!(decimal_string(0), "0");
    assert_eq!(decimal_string(3600), "3600");
    assert_eq!(decimal_string(-42), "-42");
    assert_eq!(decimal_string(i64::MIN), "-9223372036854775808");
    assert_eq!(decimal_string(i64::MAX), "9223372036854775807");
}

#[test]
fn rune_row() {
    let runes = from_str(&"anything".to_string());
    let chars: Vec<char> = runes.chars().collect();
    assert_eq!(chars.len(), 81);
    assert_eq!(chars[0], '\u{16A0}');
    assert_eq!(chars[80], '\u{16F0}');
    assert_eq!(runes, from_str(&String::new()));
}

#[test]
fn task_reports() {
    assert_eq!(
        task("task 0", "prefixed_thread_pool0"),
        Ok("task: [task 0]. finish in thread: prefixed_thread_pool0".to_string())
    );
    assert_eq!(current_thread_name(Some("main")), "main");
    assert_eq!(current_thread_name(None), "unknown");
}

#[test]
fn downcast_reports() {
    assert_eq!(receiver(&AnyMessage::Str("&str message".to_string())), Some("&str: &str message".to_string()));
    assert_eq!(receiver(&AnyMessage::I32(100)), Some("i32: 100".to_string()));
    assert_eq!(receiver(&AnyMessage::I32(-7)), Some("i32: -7".to_string()));
    assert_eq!(
        receiver(&AnyMessage::BoxedStr("Box<&str> message".to_string())),
        Some("Box<&str>: Box<&str> message".to_string())
    );
    assert_eq!(
        receiver(&AnyMessage::BoxedString("Box<String> message ".to_string())),
        Some("Box<String>: Box<String> message ".to_string())
    );
    assert_eq!(receiver(&AnyMessage::Other), None);
}

#[test]
fn request_reader_reads_until_blank_line() {
    let mut reader = RequestReader::new();
    assert_eq!(reader.next_read(), NextRead::UntilCarriageReturn);
    assert_eq!(reader.receive(b"GET / HTTP/1.0\r".to_vec()), Ok(NextRead::UntilLineFeed));
    assert_eq!(reader.receive(b"\n".to_vec()), Ok(NextRead::UntilCarriageReturn));
    assert_eq!(reader.receive(b"\r".to_vec()), Ok(NextRead::UntilLineFeed));
    assert_eq!(reader.receive(b"\n".to_vec()), Ok(NextRead::Done));
    assert_eq!(reader.lines(), &vec!["\0GET / HTTP/1.0\r\0\n".to_string(), "\0\r\0\n".to_string()]);
}

#[test]
fn request_reader_rejects_bad_utf8() {
    let mut reader = RequestReader::new();
    assert_eq!(reader.receive(vec![0xff, b'\r']), Err(LineError::InvalidUtf8));
    assert_eq!(reader.next_read(), NextRead::UntilCarriageReturn);
    assert_eq!(vec_to_string(vec![0xc3, 0xa9]), Ok("\u{e9}".to_string()));
    assert_eq!(vec_to_string(vec![0xc3]), Err(LineError::InvalidUtf8));
    assert_eq!(read_until_with_string(b"ab".to_vec()), Ok("\0ab".to_string()));
}

#[test]
fn fixed_reply_bytes() {
    assert_eq!(write_response(), b"HTTP/1.0 200 OK\r\nConnection: Close\r\n".to_vec());
}

#[test]
fn proxy_configuration() {
    assert_eq!(home_dir(None), "/tmp");
    assert_eq!(home_dir(Some("/home/me".to_string())), "/home/me");
    let text = usage("/home/me");
    assert!(text.contains("--config-dir=<cd>     config save dir [default: /home/me/.mitm]."));
    assert!(text.starts_with("\nmitm\n\nUsage:\n"));
    let args = Args {
        flag_port: 8889,
        flag_webui_addr: "0.0.0.0".to_string(),
        flag_webui_port: 8899,
        flag_webui_threads: 2,
        flag_config_dir: "/home/me/.mitm".to_string(),
    };
    let settings = webui_settings(&args);
    assert_eq!(settings.address, "0.0.0.0:8899");
    assert_eq!(settings.threads, 2);
}

#[test]
fn markdown_emphasis() {
    assert_eq!(emphasis_page(), "<p><em>foo</em></p>\n");
}

#[test]
fn config_text_lines() {
    assert_eq!(lines("a\r\nb\n\nc\r"), vec!["a", "b", "", "c\r"]);
    assert_eq!(lines("a\n"), vec!["a"]);
    assert_eq!(lines(""), Vec::<String>::new());
    assert_eq!(report_line("include \"./foo.conf\""), "include: ./foo.conf");
    assert_eq!(report_line("  include x"), "normal line:   include x");
    assert_eq!(report_line("include\t'a' include "), "include: a");
}

#[test]
fn string_cursor_sample_text() {
    let target_str = "\
        include \"./foo.conf\"
        foo {
            bar.bazz {
                value = \"\u{3042}\u{3042}\u{3042}\u{3042}\"

                arr = []
            }
        }



aaa = \"aaa\"

    "
    .to_string();
    let reports = report_lines(&target_str);
    assert_eq!(reports[0], "include: ./foo.conf");
    assert_eq!(reports[1], "normal line:         foo {");
    assert_eq!(reports[3], "normal line:                 value = \"\u{3042}\u{3042}\u{3042}\u{3042}\"");
    assert_eq!(reports[4], "normal line: ");
    assert_eq!(reports[11], "normal line: aaa = \"aaa\"");
    assert_eq!(reports[13], "normal line:     ");
    assert_eq!(reports.len(), 14);
}
