use dotlink::backup::{Timestamp, backup_file_name, fmt_dec_pad};

fn b(s: &str) -> Vec<u8> {
    s.as_bytes().to_vec()
}

fn ts(year: u32, month: u8, day: u8, hour: u8, minute: u8, second: u8) -> Timestamp {
    Timestamp { year, month, day, hour, minute, second }
}

#[test]
fn backup_name_exact() {
    let t = ts(2023, 1, 5, 7, 9, 3);
    assert_eq!(
        backup_file_name(&b(".bashrc"), &t),
        b(".bashrc-backup-2023-01-05-07-09-03")
    );
}

#[test]
fn backup_name_pads_every_field() {
    let t = ts(800, 12, 31, 23, 59, 59);
    assert_eq!(
        backup_file_name(&b("f"), &t),
        b("f-backup-0800-12-31-23-59-59")
    );
}

#[test]
fn backup_name_keeps_long_year() {
    let t = ts(12345, 6, 7, 8, 9, 10);
    assert_eq!(
        backup_file_name(&b("f"), &t),
        b("f-backup-12345-06-07-08-09-10")
    );
}

#[test]
fn decimal_padding_exact() {
    assert_eq!(fmt_dec_pad(0, 2), b("00"));
    assert_eq!(fmt_dec_pad(7, 2), b("07"));
    assert_eq!(fmt_dec_pad(59, 2), b("59"));
    assert_eq!(fmt_dec_pad(3, 4), b("0003"));
    assert_eq!(fmt_dec_pad(12345, 4), b("12345"));
}
