use oumalibc::errno::{EINVAL, ENOMEM, ERANGE};
use oumalibc::locale::{olocale_c, ThreadContext};
use oumalibc::signal::{
    __oumalibc_current_sigrtmax, __oumalibc_current_sigrtmin, sys_siglist, NSIG, SIGRTMAX,
    SIGRTMIN, SYS_NSIGNAME,
};
use oumalibc::string::{
    ouma_memccpy, ouma_memchr, ouma_memcmp, ouma_memcpy, ouma_memmove, ouma_memset,
    ouma_memset_explicit, ouma_stpcpy, ouma_stpncpy, ouma_strcat, ouma_strchr, ouma_strcmp,
    ouma_strcoll, ouma_strcoll_l, ouma_strcpy, ouma_strcspn, ouma_strdup, ouma_strerror,
    ouma_strerror_l, ouma_strerror_r, ouma_strlen, ouma_strncat, ouma_strncmp, ouma_strncpy,
    ouma_strndup, ouma_strnlen, ouma_strpbrk, ouma_strrchr, ouma_strsignal, ouma_strspn,
    ouma_strstr, ouma_strtok, ouma_strtok_r, ouma_strxfrm, ouma_strxfrm_l,
};
use oumalibc::support::{
    build_error_string, build_signal_string, put_string, string_length, to_uchar, wstring_length,
};

const ERRLIST: [&str; 3] = ["Success", "Operation not permitted", "No such file or directory"];

#[test]
fn int_arguments_are_taken_as_bytes() {
    assert_eq!(to_uchar(0), 0);
    assert_eq!(to_uchar(0x41), 0x41);
    assert_eq!(to_uchar(255), 255);
    assert_eq!(to_uchar(256), 0);
    assert_eq!(to_uchar(0x141), 0x41);
    assert_eq!(to_uchar(-1), 255);
    assert_eq!(to_uchar(-128), 128);
    assert_eq!(to_uchar(i32::MIN), 0);
    assert_eq!(to_uchar(i32::MAX), 255);
}

#[test]
fn lengths_stop_at_the_terminator_or_the_end() {
    assert_eq!(string_length(b"hello\0world"), 5);
    assert_eq!(string_length(b"hello"), 5);
    assert_eq!(string_length(b"\0"), 0);
    assert_eq!(string_length(b""), 0);
    assert_eq!(ouma_strlen(b"abc\0"), 3);
    assert_eq!(wstring_length(&[0x68, 0x20ac, 0, 7]), 2);
    assert_eq!(wstring_length(&[1, 2, 3]), 3);
    assert_eq!(wstring_length(&[]), 0);
    assert_eq!(ouma_strnlen(b"hello\0", 3), 3);
    assert_eq!(ouma_strnlen(b"hello\0", 5), 5);
    assert_eq!(ouma_strnlen(b"hello\0", 9), 5);
    assert_eq!(ouma_strnlen(b"hello", 9), 5);
    assert_eq!(ouma_strnlen(b"hello", 0), 0);
}

#[test]
fn memccpy_stops_after_the_byte() {
    let mut dest = vec![b'.'; 8];
    assert_eq!(ouma_memccpy(&mut dest, b"abcdef", b'c' as i32, 6), Some(3));
    assert_eq!(dest, b"abc.....".to_vec());
    let mut dest = vec![b'.'; 8];
    assert_eq!(ouma_memccpy(&mut dest, b"abcdef", b'z' as i32, 4), None);
    assert_eq!(dest, b"abcd....".to_vec());
    let mut dest = vec![b'.'; 8];
    assert_eq!(ouma_memccpy(&mut dest, b"abcdef", b'e' as i32, 4), None);
    assert_eq!(dest, b"abcd....".to_vec());
    let mut dest = vec![b'.'; 2];
    assert_eq!(ouma_memccpy(&mut dest, b"ab", b'b' as i32, 100), Some(2));
    assert_eq!(dest, b"ab".to_vec());
    assert_eq!(ouma_memccpy(&mut dest, b"xy", b'x' as i32, 0), None);
    assert_eq!(dest, b"ab".to_vec());
    assert_eq!(ouma_memccpy(&mut dest, b"xy", 0x100 + b'x' as i32, 2), Some(1));
    assert_eq!(dest, b"xb".to_vec());
}

#[test]
fn memchr_finds_the_first() {
    assert_eq!(ouma_memchr(b"abcabc", b'b' as i32, 6), Some(1));
    assert_eq!(ouma_memchr(b"abcabc", b'c' as i32, 2), None);
    assert_eq!(ouma_memchr(b"abcabc", b'c' as i32, 3), Some(2));
    assert_eq!(ouma_memchr(b"abcabc", b'z' as i32, 6), None);
    assert_eq!(ouma_memchr(b"abc", b'c' as i32, 1000), Some(2));
    assert_eq!(ouma_memchr(b"a\0c", 0, 3), Some(1));
    assert_eq!(ouma_memchr(b"", b'a' as i32, 0), None);
    assert_eq!(ouma_memchr(&[0x80, 0xff], -1, 2), Some(1));
}

#[test]
fn memcmp_gives_the_difference() {
    assert_eq!(ouma_memcmp(b"abc", b"abc", 3), 0);
    assert_eq!(ouma_memcmp(b"abc", b"abd", 3), -1);
    assert_eq!(ouma_memcmp(b"abd", b"abc", 3), 1);
    assert_eq!(ouma_memcmp(b"abc", b"abd", 2), 0);
    assert_eq!(ouma_memcmp(b"a\0c", b"a\0d", 3), -1);
    assert_eq!(ouma_memcmp(&[0xff], &[0x00], 1), 255);
    assert_eq!(ouma_memcmp(&[0x00], &[0xff], 1), -255);
    assert_eq!(ouma_memcmp(b"x", b"y", 0), 0);
}

#[test]
fn memcpy_copies_the_head() {
    let mut dest = vec![b'.'; 5];
    ouma_memcpy(&mut dest, b"abcdef", 3);
    assert_eq!(dest, b"abc..".to_vec());
    ouma_memcpy(&mut dest, b"xyz", 0);
    assert_eq!(dest, b"abc..".to_vec());
    ouma_memcpy(&mut dest, b"12345", 5);
    assert_eq!(dest, b"12345".to_vec());
}

#[test]
fn memmove_handles_overlap() {
    let mut buf = b"0123456789".to_vec();
    ouma_memmove(&mut buf, 2, 0, 5);
    assert_eq!(buf, b"0101234789".to_vec());
    let mut buf = b"0123456789".to_vec();
    ouma_memmove(&mut buf, 0, 2, 5);
    assert_eq!(buf, b"2345656789".to_vec());
    let mut buf = b"0123456789".to_vec();
    ouma_memmove(&mut buf, 3, 3, 4);
    assert_eq!(buf, b"0123456789".to_vec());
    ouma_memmove(&mut buf, 6, 0, 4);
    assert_eq!(buf, b"0123450123".to_vec());
    ouma_memmove(&mut buf, 10, 0, 0);
    assert_eq!(buf, b"0123450123".to_vec());
    for (dest, src, n) in [(1usize, 0usize, 9usize), (0, 1, 9), (4, 2, 6), (2, 4, 6)] {
        let mut ours = b"abcdefghij".to_vec();
        let mut theirs = ours.clone();
        ouma_memmove(&mut ours, dest, src, n);
        theirs.copy_within(src..src + n, dest);
        assert_eq!(ours, theirs);
    }
}

#[test]
fn memset_fills_the_head() {
    let mut buf = vec![1u8; 4];
    ouma_memset(&mut buf, 0x141, 3);
    assert_eq!(buf, vec![0x41, 0x41, 0x41, 1]);
    ouma_memset(&mut buf, -1, 0);
    assert_eq!(buf, vec![0x41, 0x41, 0x41, 1]);
    ouma_memset_explicit(&mut buf, 0, 4);
    assert_eq!(buf, vec![0; 4]);
}

#[test]
fn strchr_and_strrchr() {
    assert_eq!(ouma_strchr(b"hello\0l", b'l' as i32), Some(2));
    assert_eq!(ouma_strrchr(b"hello\0l", b'l' as i32), Some(3));
    assert_eq!(ouma_strchr(b"hello\0z", b'z' as i32), None);
    assert_eq!(ouma_strrchr(b"hello\0z", b'z' as i32), None);
    assert_eq!(ouma_strchr(b"hello\0", 0), Some(5));
    assert_eq!(ouma_strrchr(b"hello\0", 0), Some(5));
    assert_eq!(ouma_strchr(b"hello", 0), Some(5));
    assert_eq!(ouma_strchr(b"", b'a' as i32), None);
    assert_eq!(ouma_strrchr(b"", 0), Some(0));
    assert_eq!(ouma_strchr(b"hello", b'h' as i32 + 256), Some(0));
    assert_eq!(ouma_strrchr(b"abcabc", b'a' as i32), Some(3));
}

#[test]
fn strncpy_pads_with_nul() {
    let mut dest = vec![b'.'; 8];
    assert_eq!(ouma_stpncpy(&mut dest, b"abc\0zz", 6), 3);
    assert_eq!(dest, b"abc\0\0\0..".to_vec());
    let mut dest = vec![b'.'; 8];
    assert_eq!(ouma_stpncpy(&mut dest, b"abcdef\0", 4), 4);
    assert_eq!(dest, b"abcd....".to_vec());
    let mut dest = vec![b'.'; 8];
    ouma_strncpy(&mut dest, b"ab", 5);
    assert_eq!(dest, b"ab\0\0\0...".to_vec());
    ouma_strncpy(&mut dest, b"xyz", 0);
    assert_eq!(dest, b"ab\0\0\0...".to_vec());
    assert_eq!(ouma_stpncpy(&mut dest, b"", 2), 0);
    assert_eq!(dest, b"\0\0\0\0\0...".to_vec());
}

#[test]
fn strcpy_copies_with_the_terminator() {
    let mut dest = vec![b'.'; 6];
    assert_eq!(ouma_stpcpy(&mut dest, b"abc\0zz"), 3);
    assert_eq!(dest, b"abc\0..".to_vec());
    ouma_strcpy(&mut dest, b"hello");
    assert_eq!(dest, b"hello\0".to_vec());
    ouma_strcpy(&mut dest, b"\0");
    assert_eq!(dest, b"\0ello\0".to_vec());
}

#[test]
fn strcat_appends() {
    let mut dest = b"ab\0.....".to_vec();
    ouma_strcat(&mut dest, b"cd\0zz");
    assert_eq!(dest, b"abcd\0...".to_vec());
    ouma_strncat(&mut dest, b"efgh", 2);
    assert_eq!(dest, b"abcdef\0.".to_vec());
    ouma_strncat(&mut dest, b"xyz", 0);
    assert_eq!(dest, b"abcdef\0.".to_vec());
    ouma_strncat(&mut dest, b"g\0", 5);
    assert_eq!(dest, b"abcdefg\0".to_vec());
    let mut dest = b"\0...".to_vec();
    ouma_strncat(&mut dest, b"", 3);
    assert_eq!(dest, b"\0...".to_vec());
    ouma_strcat(&mut dest, b"xyz");
    assert_eq!(dest, b"xyz\0".to_vec());
}

#[test]
fn strcmp_orders_by_bytes() {
    assert_eq!(ouma_strcmp(b"abc\0", b"abc\0"), 0);
    assert_eq!(ouma_strcmp(b"abc\0x", b"abc\0y"), 0);
    assert_eq!(ouma_strcmp(b"abc", b"abc\0"), 0);
    assert_eq!(ouma_strcmp(b"abc\0", b"abd\0"), -1);
    assert_eq!(ouma_strcmp(b"abd\0", b"abc\0"), 1);
    assert_eq!(ouma_strcmp(b"ab\0", b"abc\0"), -(b'c' as i32));
    assert_eq!(ouma_strcmp(b"abc\0", b"ab\0"), b'c' as i32);
    assert_eq!(ouma_strcmp(b"", b""), 0);
    assert_eq!(ouma_strcmp(&[0xff, 0], &[0x01, 0]), 0xfe);
    assert_eq!(ouma_strcoll(b"abc\0", b"abd\0"), -1);
    assert_eq!(ouma_strcoll_l(b"b\0", b"a\0", &olocale_c()), 1);
}

#[test]
fn strncmp_looks_at_no_more_than_n() {
    assert_eq!(ouma_strncmp(b"abcx\0", b"abcy\0", 3), 0);
    assert_eq!(ouma_strncmp(b"abcx\0", b"abcy\0", 4), -1);
    assert_eq!(ouma_strncmp(b"abc\0x", b"abc\0y", 10), 0);
    assert_eq!(ouma_strncmp(b"a", b"b", 0), 0);
    assert_eq!(ouma_strncmp(b"ab", b"a", 5), b'b' as i32);
    assert_eq!(ouma_strncmp(b"a", b"ab", 5), -(b'b' as i32));
    assert_eq!(ouma_strncmp(b"abc", b"abc", usize::MAX), 0);
}

#[test]
fn strxfrm_copies_where_it_fits() {
    let mut dest = vec![b'.'; 6];
    assert_eq!(ouma_strxfrm(&mut dest, b"abc\0", 6), 3);
    assert_eq!(dest, b"abc\0\0\0".to_vec());
    let mut dest = vec![b'.'; 6];
    assert_eq!(ouma_strxfrm(&mut dest, b"abc\0", 3), 3);
    assert_eq!(dest, b"......".to_vec());
    assert_eq!(ouma_strxfrm(&mut dest, b"abc\0", 0), 3);
    assert_eq!(ouma_strxfrm_l(&mut dest, b"hi\0", 3, &olocale_c()), 2);
    assert_eq!(dest, b"hi\0...".to_vec());
    assert_eq!(ouma_strxfrm_l(&mut dest, b"hello world\0", 5, &olocale_c()), 11);
    assert_eq!(dest, b"hi\0...".to_vec());
}

#[test]
fn spans() {
    assert_eq!(ouma_strspn(b"abcde\0", b"cab\0"), 3);
    assert_eq!(ouma_strspn(b"abcde\0", b"xyz\0"), 0);
    assert_eq!(ouma_strspn(b"aaaa\0", b"a\0"), 4);
    assert_eq!(ouma_strspn(b"aaaa", b"a"), 4);
    assert_eq!(ouma_strspn(b"abc\0", b"\0abc"), 0);
    assert_eq!(ouma_strspn(b"ab\0ab", b"ab\0"), 2);
    assert_eq!(ouma_strcspn(b"abcde\0", b"dc\0"), 2);
    assert_eq!(ouma_strcspn(b"abcde\0", b"xyz\0"), 5);
    assert_eq!(ouma_strcspn(b"abcde\0", b"\0"), 5);
    assert_eq!(ouma_strcspn(b"\0", b"abc\0"), 0);
    assert_eq!(ouma_strcspn(&[0x61, 0xff, 0x80, 0], &[0x80, 0]), 2);
    assert_eq!(ouma_strspn(&[0xff, 0xfe, 0x01, 0], &[0xfe, 0xff, 0]), 2);
    assert_eq!(ouma_strpbrk(b"hello world\0", b"ow\0"), Some(4));
    assert_eq!(ouma_strpbrk(b"hello world\0", b"xyz\0"), None);
    assert_eq!(ouma_strpbrk(b"hello\0w", b"w\0"), None);
    assert_eq!(ouma_strpbrk(b"hello", b""), None);
}

#[test]
fn every_byte_can_be_a_separator() {
    for b in 1u8..=255 {
        let set = [b, 0];
        let other = if b == 1 { 2 } else { 1 };
        assert_eq!(ouma_strspn(&[b, b, other, 0], &set), 2);
        assert_eq!(ouma_strcspn(&[other, b, 0], &set), 1);
    }
}

#[test]
fn strstr_finds_the_first_occurrence() {
    assert_eq!(ouma_strstr(b"hello world\0", b"o w\0"), Some(4));
    assert_eq!(ouma_strstr(b"hello world\0", b"o\0"), Some(4));
    assert_eq!(ouma_strstr(b"hello world\0", b"world\0"), Some(6));
    assert_eq!(ouma_strstr(b"hello world\0", b"worlds\0"), None);
    assert_eq!(ouma_strstr(b"hello world\0", b"\0"), Some(0));
    assert_eq!(ouma_strstr(b"\0", b"\0"), Some(0));
    assert_eq!(ouma_strstr(b"", b""), Some(0));
    assert_eq!(ouma_strstr(b"\0", b"a\0"), None);
    assert_eq!(ouma_strstr(b"aaab\0", b"aab\0"), Some(1));
    assert_eq!(ouma_strstr(b"ab\0cd", b"cd\0"), None);
    assert_eq!(ouma_strstr(b"abc", b"bc"), Some(1));
    assert_eq!(ouma_strstr(b"abc", b"abcd"), None);
}

#[test]
fn strtok_r_walks_the_tokens() {
    let mut buf = b"  one, two,,three \0".to_vec();
    let mut last = None;
    assert_eq!(ouma_strtok_r(&mut buf, Some(0), b", \0", &mut last), Some(2));
    assert_eq!(last, Some(6));
    assert_eq!(buf, b"  one\0 two,,three \0".to_vec());
    assert_eq!(ouma_strtok_r(&mut buf, None, b", \0", &mut last), Some(7));
    assert_eq!(last, Some(11));
    assert_eq!(ouma_strtok_r(&mut buf, None, b", \0", &mut last), Some(12));
    assert_eq!(last, Some(18));
    assert_eq!(buf, b"  one\0 two\0,three\0\0".to_vec());
    assert_eq!(ouma_strtok_r(&mut buf, None, b", \0", &mut last), None);
    assert_eq!(last, Some(18));
    assert_eq!(ouma_strtok_r(&mut buf, None, b", \0", &mut last), None);
    assert_eq!(buf, b"  one\0 two\0,three\0\0".to_vec());
}

#[test]
fn strtok_r_edge_cases() {
    let mut buf = b"abc\0".to_vec();
    let mut last = None;
    assert_eq!(ouma_strtok_r(&mut buf, None, b",\0", &mut last), None);
    assert_eq!(last, None);
    assert_eq!(buf, b"abc\0".to_vec());
    assert_eq!(ouma_strtok_r(&mut buf, Some(0), b",\0", &mut last), Some(0));
    assert_eq!(last, Some(3));
    assert_eq!(ouma_strtok_r(&mut buf, None, b",\0", &mut last), None);

    let mut buf = b",,,\0".to_vec();
    assert_eq!(ouma_strtok_r(&mut buf, Some(0), b",\0", &mut last), None);
    assert_eq!(last, Some(3));
    assert_eq!(buf, b",,,\0".to_vec());

    let mut buf = b"a,b".to_vec();
    assert_eq!(ouma_strtok_r(&mut buf, Some(0), b",", &mut last), Some(0));
    assert_eq!(ouma_strtok_r(&mut buf, None, b",", &mut last), Some(2));
    assert_eq!(last, Some(3));
    assert_eq!(ouma_strtok_r(&mut buf, None, b",", &mut last), None);
    assert_eq!(buf, b"a\0b".to_vec());

    let mut buf = b"a b\0".to_vec();
    assert_eq!(ouma_strtok_r(&mut buf, Some(0), b"\0", &mut last), Some(0));
    assert_eq!(last, Some(3));
}

#[test]
fn strtok_keeps_its_place_in_the_thread() {
    let mut ctx = ThreadContext::new();
    let mut buf = b"k=v\0".to_vec();
    assert_eq!(ouma_strtok(&mut ctx, &mut buf, None, b"=\0"), None);
    assert_eq!(ctx.strtok_last, None);
    assert_eq!(ouma_strtok(&mut ctx, &mut buf, Some(0), b"=\0"), Some(0));
    assert_eq!(ctx.strtok_last, Some(2));
    assert_eq!(ouma_strtok(&mut ctx, &mut buf, None, b"=\0"), Some(2));
    assert_eq!(ouma_strtok(&mut ctx, &mut buf, None, b"=\0"), None);
    assert_eq!(buf, b"k\0v\0".to_vec());
    assert_eq!(ctx.errno, 0);
}

#[test]
fn duplicates() {
    let mut ctx = ThreadContext::new();
    assert_eq!(ouma_strdup(&mut ctx, b"abc\0zz"), Some(b"abc\0".to_vec()));
    assert_eq!(ouma_strdup(&mut ctx, b"abc"), Some(b"abc\0".to_vec()));
    assert_eq!(ouma_strdup(&mut ctx, b""), Some(b"\0".to_vec()));
    assert_eq!(ouma_strndup(&mut ctx, b"abcdef\0", 3), Some(b"abc\0".to_vec()));
    assert_eq!(ouma_strndup(&mut ctx, b"abc\0", 10), Some(b"abc\0".to_vec()));
    assert_eq!(ouma_strndup(&mut ctx, b"abc\0", 0), Some(b"\0".to_vec()));
    assert_eq!(ctx.errno, 0);
    assert_eq!(ENOMEM, 12);
}

#[test]
fn signal_numbers() {
    assert_eq!(__oumalibc_current_sigrtmin(), 34);
    assert_eq!(__oumalibc_current_sigrtmax(), 64);
    assert_eq!((SIGRTMIN, SIGRTMAX, NSIG, SYS_NSIGNAME), (34, 64, 65, 32));
    assert_eq!(sys_siglist(0), "Unknown signal 0");
    assert_eq!(sys_siglist(1), "Hangup");
    assert_eq!(sys_siglist(9), "Killed");
    assert_eq!(sys_siglist(11), "Segmentation fault");
    assert_eq!(sys_siglist(15), "Terminated");
    assert_eq!(sys_siglist(31), "Bad system call");
}

#[test]
fn signal_messages() {
    let mut buf = vec![b'.'; 255];
    ouma_strsignal(2, &mut buf);
    assert_eq!(&buf[..10], b"Interrupt\0");
    assert_eq!(buf[10], b'.');
    ouma_strsignal(0, &mut buf);
    assert_eq!(&buf[..17], b"Unknown signal 0\0");
    ouma_strsignal(32, &mut buf);
    assert_eq!(&buf[..18], b"Unknown signal 32\0");
    ouma_strsignal(33, &mut buf);
    assert_eq!(&buf[..18], b"Unknown signal 33\0");
    ouma_strsignal(34, &mut buf);
    assert_eq!(&buf[..19], b"Real-time signal 0\0");
    ouma_strsignal(64, &mut buf);
    assert_eq!(&buf[..20], b"Real-time signal 30\0");
    ouma_strsignal(65, &mut buf);
    assert_eq!(&buf[..18], b"Unknown signal 65\0");
    ouma_strsignal(-7, &mut buf);
    assert_eq!(&buf[..18], b"Unknown signal -7\0");
    ouma_strsignal(i32::MIN, &mut buf);
    assert_eq!(&buf[..27], b"Unknown signal -2147483648\0");
    let mut buf = vec![b'.'; 40];
    build_signal_string(40, &mut buf, 20);
    assert_eq!(&buf[..19], b"Real-time signal 6\0");
    assert_eq!(buf[19], b'.');
}

#[test]
fn error_messages() {
    let mut buf = vec![b'.'; 40];
    build_error_string(1234, &mut buf, 40);
    assert_eq!(&buf[..19], b"Unknown error 1234\0");
    assert_eq!(buf[19], b'.');
    build_error_string(-5, &mut buf, 40);
    assert_eq!(&buf[..17], b"Unknown error -5\0");
    build_error_string(i32::MAX, &mut buf, 40);
    assert_eq!(&buf[..25], b"Unknown error 2147483647\0");
    build_error_string(0, &mut buf, 16);
    assert_eq!(&buf[..16], b"Unknown error 0\0");
    put_string(&mut buf, b"ok");
    assert_eq!(&buf[..4], b"ok\0n");
}

#[test]
fn strerror_r_results() {
    let mut buf = vec![b'.'; 40];
    assert_eq!(ouma_strerror_r(&ERRLIST, 1, Some(&mut buf), 40), 0);
    assert_eq!(&buf[..24], b"Operation not permitted\0");
    assert_eq!(buf[24], b'.');
    assert_eq!(ouma_strerror_r(&ERRLIST, 0, Some(&mut buf), 8), 0);
    assert_eq!(&buf[..9], b"Success\0n");

    let before = buf.clone();
    assert_eq!(ouma_strerror_r(&ERRLIST, 0, Some(&mut buf), 7), ERANGE);
    assert_eq!(ouma_strerror_r(&ERRLIST, 2, Some(&mut buf), 0), ERANGE);
    assert_eq!(ouma_strerror_r(&ERRLIST, 2, None, 40), ERANGE);
    assert_eq!(buf, before);

    assert_eq!(ouma_strerror_r(&ERRLIST, 3, Some(&mut buf), 40), EINVAL);
    assert_eq!(&buf[..16], b"Unknown error 3\0");
    assert_eq!(ouma_strerror_r(&ERRLIST, -1, Some(&mut buf), 40), EINVAL);
    assert_eq!(&buf[..17], b"Unknown error -1\0");
    assert_eq!(ouma_strerror_r(&[], 0, Some(&mut buf), 40), EINVAL);
    assert_eq!(&buf[..16], b"Unknown error 0\0");
    assert_eq!((ERANGE, EINVAL), (34, 22));
}

#[test]
fn strerror_sets_the_error_code() {
    let mut ctx = ThreadContext::new();
    let mut buf = vec![b'.'; 255];
    ouma_strerror(&mut ctx, &ERRLIST, 2, &mut buf);
    assert_eq!(&buf[..26], b"No such file or directory\0");
    assert_eq!(ctx.errno, 0);
    ouma_strerror(&mut ctx, &ERRLIST, 77, &mut buf);
    assert_eq!(&buf[..17], b"Unknown error 77\0");
    assert_eq!(ctx.errno, EINVAL);

    ctx.errno = 0;
    let mut small = vec![b'.'; 5];
    ouma_strerror_l(&mut ctx, &ERRLIST, 0, &olocale_c(), &mut small);
    assert_eq!(small, b".....".to_vec());
    assert_eq!(ctx.errno, EINVAL);
    ctx.errno = 0;
    ouma_strerror_l(&mut ctx, &ERRLIST, 0, &olocale_c(), &mut buf);
    assert_eq!(&buf[..8], b"Success\0");
    assert_eq!(ctx.errno, 0);
}
