use sockchat::number::{format_i64, format_u8, parse_i64, parse_u8};
use sockchat::packets::types::{
    decode_i64, decode_sockbool, BadAuthReason, ChannelContext, Color, DisconnectReason,
    FromParts, MessageFlags, ParsePacketError, ParseSockBool, Sockchatable, UserContext,
    UserPermissions,
};
use sockchat::text::{is_char, join_fields, leading_chars, same_text, split_fields, split_text};

fn parts(fields: &[&str]) -> Vec<String> {
    fields.iter().map(|s| s.to_string()).collect()
}

#[test]
fn message_flags_have_a_fixed_width() {
    let flags = "10110".parse::<MessageFlags>().unwrap();
    assert_eq!(
        flags,
        MessageFlags { bold: true, cursive: false, underlined: true, colon: true, private: false }
    );
    assert_eq!(flags.to_sockstr(), "10110");
}

#[test]
fn message_flags_read_five_leading_characters() {
    assert_eq!("1011".parse::<MessageFlags>(), Err(ParsePacketError::FieldParsingFail));
    assert_eq!("".parse::<MessageFlags>(), Err(ParsePacketError::FieldParsingFail));
    assert_eq!("1011x".parse::<MessageFlags>(), Err(ParsePacketError::FieldParsingFail));
    assert_eq!("x0110".parse::<MessageFlags>(), Err(ParsePacketError::FieldParsingFail));
    assert_eq!(
        "00001trailing".parse::<MessageFlags>(),
        Ok(MessageFlags {
            bold: false,
            cursive: false,
            underlined: false,
            colon: false,
            private: true
        })
    );
    assert_eq!("11111".parse::<MessageFlags>().unwrap().to_sockstr(), "11111");
    assert_eq!(MessageFlags::default().to_sockstr(), "00000");
}

#[test]
fn flags_on_the_wire_are_zero_and_one() {
    assert_eq!("0".to_string().parse_sockbool(), Ok(false));
    assert_eq!("1".to_string().parse_sockbool(), Ok(true));
    for other in ["", "2", "01", "true", " 1", "1 "] {
        assert_eq!(other.to_string().parse_sockbool(), Err(ParsePacketError::FieldParsingFail));
        assert_eq!(decode_sockbool(other), Err(ParsePacketError::FieldParsingFail));
    }
    assert_eq!(true.to_sockstr(), "1");
    assert_eq!(false.to_sockstr(), "0");
}

#[test]
fn permissions_are_five_texts() {
    let permissions = "5 1 1 1 3".parse::<UserPermissions>().unwrap();
    assert_eq!(
        permissions,
        UserPermissions {
            rank: 5,
            can_moderate: true,
            can_logs: true,
            can_nickname: true,
            channel_permissions: 3
        }
    );
    assert_eq!(permissions.to_sockstr(), "5 1 1 1 3");
    assert_eq!(UserPermissions::default().to_sockstr(), "0 0 0 0 0");
    assert_eq!(
        "255 0 1 0 0".parse::<UserPermissions>().unwrap().to_sockstr(),
        "255 0 1 0 0"
    );
}

#[test]
fn permissions_accept_a_form_feed_and_write_a_space() {
    let permissions = "5\x0c1\x0c0 1\x0c3".parse::<UserPermissions>().unwrap();
    assert_eq!(permissions.rank, 5);
    assert!(permissions.can_moderate);
    assert!(!permissions.can_logs);
    assert!(permissions.can_nickname);
    assert_eq!(permissions.channel_permissions, 3);
    assert_eq!(permissions.to_sockstr(), "5 1 0 1 3");
}

#[test]
fn permissions_that_are_not_five_values_are_refused() {
    for text in
        ["", "5 1 1 1", "5 1 1 1 3 0", "5  1 1 1 3", "256 1 1 1 3", "5 2 1 1 3", "-5 1 1 1 3", "5 1 1 1 x", "5,1,1,1,3"]
    {
        assert_eq!(
            text.parse::<UserPermissions>(),
            Err(ParsePacketError::FieldParsingFail),
            "{:?}",
            text
        );
    }
}

#[test]
fn reasons_are_keywords() {
    let bad = [
        ("authfail", BadAuthReason::AuthFail),
        ("userfail", BadAuthReason::UserFail),
        ("sockfail", BadAuthReason::SockFail),
        ("joinfail", BadAuthReason::JoinFail),
    ];
    for (keyword, reason) in bad {
        assert_eq!(keyword.parse::<BadAuthReason>(), Ok(reason));
        assert_eq!(reason.to_sockstr(), keyword);
    }
    let gone = [
        ("leave", DisconnectReason::Leave),
        ("timeout", DisconnectReason::Timeout),
        ("kick", DisconnectReason::Kick),
        ("flood", DisconnectReason::Flood),
    ];
    for (keyword, reason) in gone {
        assert_eq!(keyword.parse::<DisconnectReason>(), Ok(reason));
        assert_eq!(reason.to_sockstr(), keyword);
    }
    for other in ["", "AuthFail", "authfail ", "leave", "auth"] {
        assert_eq!(other.parse::<BadAuthReason>(), Err(ParsePacketError::WrongFormat));
    }
    for other in ["", "Leave", "kicked", "authfail"] {
        assert_eq!(other.parse::<DisconnectReason>(), Err(ParsePacketError::WrongFormat));
    }
}

#[test]
fn reasons_have_names_and_defaults() {
    assert_eq!(BadAuthReason::AuthFail.name(), "AuthFail");
    assert_eq!(BadAuthReason::UserFail.name(), "UserFail");
    assert_eq!(BadAuthReason::SockFail.name(), "SockFail");
    assert_eq!(BadAuthReason::JoinFail.name(), "JoinFail");
    assert_eq!(BadAuthReason::default(), BadAuthReason::SockFail);
    assert_eq!(DisconnectReason::default(), DisconnectReason::Leave);
}

#[test]
fn contexts_are_runs_of_fields() {
    let user = UserContext::from_parts(parts(&["U1", "Alice", "#abc", "5 1 0 1 3", "1"])).unwrap();
    assert_eq!(user.user_id, "U1");
    assert_eq!(user.username, "Alice");
    assert_eq!(user.color.raw(), "#abc");
    assert_eq!(user.user_permissions.rank, 5);
    assert!(user.visible);
    assert_eq!(user.to_sockstr(), "U1\tAlice\t#abc\t5 1 0 1 3\t1");
    assert_eq!(user.to_parts(), parts(&["U1", "Alice", "#abc", "5 1 0 1 3", "1"]));
    assert_eq!(
        UserContext::from_parts(parts(&["U1", "Alice", "#abc", "5 1 0 1 3"])),
        Err(ParsePacketError::WrongFormat)
    );

    let channel = ChannelContext::from_parts(parts(&["general", "0", "1"])).unwrap();
    assert_eq!(
        channel,
        ChannelContext {
            channel_name: "general".to_string(),
            password_protected: false,
            temporary: true
        }
    );
    assert_eq!(channel.to_sockstr(), "general\t0\t1");
    assert_eq!(
        ChannelContext::from_parts(parts(&["general", "0", "1", "1"])),
        Err(ParsePacketError::WrongFormat)
    );
    assert_eq!(
        ChannelContext::from_parts(parts(&["general", "no", "1"])),
        Err(ParsePacketError::FieldParsingFail)
    );
}

#[test]
fn defaults_of_contexts() {
    let user = UserContext::default();
    assert_eq!(user.to_sockstr(), "default_user_id\tdefault_username\tFFF\t0 0 0 0 0\t0");
    let channel = ChannelContext::default();
    assert_eq!(channel.to_sockstr(), "default_channel_name\t0\t0");
    assert_eq!(Color::default().raw(), "FFF");
}

#[test]
fn numbers_are_written_in_decimal() {
    assert_eq!(format_i64(0), "0");
    assert_eq!(format_i64(7), "7");
    assert_eq!(format_i64(-7), "-7");
    assert_eq!(format_i64(1700000000), "1700000000");
    assert_eq!(format_i64(i64::MAX), "9223372036854775807");
    assert_eq!(format_i64(i64::MIN), "-9223372036854775808");
    assert_eq!(format_u8(0), "0");
    assert_eq!(format_u8(9), "9");
    assert_eq!(format_u8(10), "10");
    assert_eq!(format_u8(255), "255");
}

#[test]
fn numbers_are_read_as_the_standard_library_reads_them() {
    let texts = [
        "0", "7", "-7", "+7", "007", "-0", "+0", "", "+", "-", "--7", "+-7", "7 ", " 7", "7.0", "0x7",
        "9223372036854775807", "9223372036854775808", "-9223372036854775808",
        "-9223372036854775809", "00000000000000000000000000000000000001",
        "18446744073709551616", "99999999999999999999999999", "١",
    ];
    for text in texts {
        assert_eq!(parse_i64(text), text.parse::<i64>().ok(), "{:?}", text);
        assert_eq!(decode_i64(text).ok(), text.parse::<i64>().ok(), "{:?}", text);
    }
    let texts = ["0", "255", "256", "+255", "-0", "-1", "", "+", "-", "0255", "00256", "2 5", "1e1"];
    for text in texts {
        assert_eq!(parse_u8(text), text.parse::<u8>().ok(), "{:?}", text);
    }
    for n in 0..=255u8 {
        assert_eq!(parse_u8(&format_u8(n)), Some(n));
        assert_eq!(format_u8(n), n.to_string());
    }
    for n in [i64::MIN, i64::MIN + 1, -10, -1, 0, 1, 9, 10, 99, 100, i64::MAX - 1, i64::MAX] {
        assert_eq!(parse_i64(&format_i64(n)), Some(n));
        assert_eq!(format_i64(n), n.to_string());
    }
    assert_eq!(parse_i64("1700000000"), Some(1700000000));
    assert_eq!(decode_i64("x"), Err(ParsePacketError::FieldParsingFail));
}

#[test]
fn lines_split_at_every_tab() {
    assert_eq!(split_fields(""), parts(&[""]));
    assert_eq!(split_fields("a"), parts(&["a"]));
    assert_eq!(split_fields("\t"), parts(&["", ""]));
    assert_eq!(split_fields("a\tb\tc"), parts(&["a", "b", "c"]));
    assert_eq!(split_fields("a\t\tc\t"), parts(&["a", "", "c", ""]));
    assert_eq!(split_fields("héllo\twörld é"), parts(&["héllo", "wörld é"]));
    assert_eq!(split_text("5 1\x0c0", ' ', '\x0c'), parts(&["5", "1", "0"]));
    for line in ["", "a", "\t", "a\tb\tc", "a\t\tc\t", "\t\t", "日本\t語"] {
        let expected: Vec<String> = line.split('\t').map(str::to_string).collect();
        assert_eq!(split_fields(line), expected);
        assert_eq!(join_fields(&split_fields(line)), line);
    }
}

#[test]
fn fields_join_with_tabs() {
    assert_eq!(join_fields(&parts(&[])), "");
    assert_eq!(join_fields(&parts(&["a"])), "a");
    assert_eq!(join_fields(&parts(&["a", "b"])), "a\tb");
    assert_eq!(join_fields(&parts(&["", "", ""])), "\t\t");
    assert_eq!(split_fields(&join_fields(&parts(&["x", "", "z"]))), parts(&["x", "", "z"]));
}

#[test]
fn texts_compare_by_their_characters() {
    assert!(same_text("", ""));
    assert!(same_text("abc", "abc"));
    assert!(!same_text("abc", "abd"));
    assert!(!same_text("abc", "ab"));
    assert!(!same_text("ab", "abc"));
    assert!(same_text("é", "é"));
    assert!(is_char("y", 'y'));
    assert!(!is_char("n", 'y'));
    assert!(!is_char("", 'y'));
    assert!(!is_char("yy", 'y'));
    assert_eq!(leading_chars("héllo", 2), Some(vec!['h', 'é']));
    assert_eq!(leading_chars("hé", 3), None);
    assert_eq!(leading_chars("", 0), Some(vec![]));
}
