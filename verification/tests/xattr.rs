use libc::ERANGE;
use nixfs::xattr::{reply_xattr, xattr_outcome, XattrAnswer, XattrReply};

#[test]
fn xattr_outcome_implements_size_protocol() {
    assert_eq!(xattr_outcome(0, 123), XattrReply::Size);
    assert_eq!(xattr_outcome(0, 0), XattrReply::Size);
    assert_eq!(xattr_outcome(123, 123), XattrReply::Data);
    assert_eq!(xattr_outcome(1, 0), XattrReply::Data);
    assert_eq!(xattr_outcome(100, 123), XattrReply::Range);
}

#[test]
fn answers_follow_the_size_protocol() {
    assert_eq!(reply_xattr(0, b"abc"), XattrAnswer::Size(3));
    assert_eq!(reply_xattr(0, b""), XattrAnswer::Size(0));
    assert_eq!(reply_xattr(3, b"abc"), XattrAnswer::Data(b"abc".to_vec()));
    assert_eq!(reply_xattr(9, b""), XattrAnswer::Data(Vec::new()));
    assert_eq!(reply_xattr(2, b"abc"), XattrAnswer::Error(ERANGE));
}

#[test]
fn the_told_size_suffices() {
    let data = b"some message";
    let XattrAnswer::Size(size) = reply_xattr(0, data) else {
        panic!("the size is told");
    };
    assert_eq!(reply_xattr(size, data), XattrAnswer::Data(data.to_vec()));
}
