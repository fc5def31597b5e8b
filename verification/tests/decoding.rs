use sockchat::packets::client::{ClientPacket, PingPacket};
use sockchat::packets::server::{
    ChannelEventPacket, ClearedContext, ContextClearingPacket, ContextInformationPacket,
    JoinAuthPacket, PongPacket, ServerPacket,
};
use sockchat::packets::types::{
    Color, FromParts, ParsePacketError, Sockchatable, UserContext, UserPermissions,
};
use sockchat::packets::{decode_client, decode_server};

fn parts(fields: &[&str]) -> Vec<String> {
    fields.iter().map(|s| s.to_string()).collect()
}

#[test]
fn join_auth_dispatches_on_its_marker() {
    let good = decode_server("1\ty\tU1\tAlice\t#ff0000\t5 1 1 1 3\tgeneral\t500").unwrap();
    assert_eq!(
        good,
        ServerPacket::JoinAuth(JoinAuthPacket::GoodAuth {
            user_id: "U1".to_string(),
            username: "Alice".to_string(),
            color: Color { value: "#ff0000".to_string() },
            user_permissions: UserPermissions {
                rank: 5,
                can_moderate: true,
                can_logs: true,
                can_nickname: true,
                channel_permissions: 3,
            },
            channel_name: "general".to_string(),
            max_msg_length: 500,
        })
    );
    let join = decode_server("1\t1700000000\tU1\tAlice\t#ff0000\t5 1 1 1 3\tSEQ1").unwrap();
    assert_eq!(
        join,
        ServerPacket::JoinAuth(JoinAuthPacket::Join {
            timestamp: 1700000000,
            user_id: "U1".to_string(),
            username: "Alice".to_string(),
            color: Color { value: "#ff0000".to_string() },
            user_permissions: UserPermissions {
                rank: 5,
                can_moderate: true,
                can_logs: true,
                can_nickname: true,
                channel_permissions: 3,
            },
            sequence_id: "SEQ1".to_string(),
        })
    );
}

#[test]
fn join_auth_has_no_third_marker() {
    assert_eq!(
        decode_server("1\tz\tU1\tAlice\t#ff0000\t5 1 1 1 3\tSEQ1"),
        Err(ParsePacketError::FieldParsingFail)
    );
    assert_eq!(
        decode_server("1\tY\tU1\tAlice\t#ff0000\t5 1 1 1 3\tgeneral\t500"),
        Err(ParsePacketError::WrongFormat)
    );
    assert_eq!(decode_server("1\tn\tnope\t5"), Err(ParsePacketError::WrongFormat));
    assert_eq!(decode_server("1\tn\tjoinfail\tsoon"), Err(ParsePacketError::FieldParsingFail));
}

#[test]
fn cleared_context_follows_its_table() {
    let table = [
        ("0", true, false, false),
        ("1", false, true, false),
        ("2", false, false, true),
        ("3", true, true, false),
        ("4", true, true, true),
    ];
    for (code, message_history, user_list, channel_list) in table {
        let cleared: ClearedContext = ContextClearingPacket::from_parts(parts(&[code])).unwrap();
        assert_eq!(cleared, ContextClearingPacket { message_history, user_list, channel_list });
        assert!(cleared.has_code());
        assert_eq!(cleared.to_sockstr(), code);
    }
    for code in ["5", "9", "", "x", "03", "3 ", "-1"] {
        assert_eq!(
            ContextClearingPacket::from_parts(parts(&[code])),
            Err(ParsePacketError::WrongFormat)
        );
    }
    assert_eq!(decode_server("8\t5"), Err(ParsePacketError::WrongFormat));
    assert_eq!(
        decode_server("8\t3"),
        Ok(ServerPacket::ContextClearing(ContextClearingPacket {
            message_history: true,
            user_list: true,
            channel_list: false,
        }))
    );
}

#[test]
fn a_list_with_fewer_groups_than_its_count_is_refused() {
    let line = "7\t0\t2\tU1\tAlice\t#abc\t5 1 0 1 3\t1";
    assert_eq!(decode_server(line), Err(ParsePacketError::WrongFormat));
    let line = "7\t2\t2\tgeneral\t0\t0";
    assert_eq!(decode_server(line), Err(ParsePacketError::WrongFormat));
}

#[test]
fn a_list_with_more_fields_than_its_count_is_refused() {
    assert_eq!(
        decode_server("7\t0\t0\tU1\tAlice\t#abc\t5 1 0 1 3\t1"),
        Err(ParsePacketError::WrongFormat)
    );
    assert_eq!(
        decode_server("7\t0\t1\tU1\tAlice\t#abc\t5 1 0 1 3\t1\textra"),
        Err(ParsePacketError::WrongFormat)
    );
    assert_eq!(decode_server("7\t2\t1\tgeneral\t0\t0\t1"), Err(ParsePacketError::WrongFormat));
    assert_eq!(decode_server("7\t0\t-1"), Err(ParsePacketError::WrongFormat));
    assert_eq!(decode_server("7\t0"), Err(ParsePacketError::WrongFormat));
    assert_eq!(decode_server("7\t0\tmany"), Err(ParsePacketError::FieldParsingFail));
    assert_eq!(
        decode_server("7\t0\t9223372036854775807\tU1"),
        Err(ParsePacketError::WrongFormat)
    );
}

#[test]
fn the_count_of_a_decoded_list_is_its_length() {
    let packet = decode_server("7\t0\t1\tU1\tAlice\t#abc\t5 1 0 1 3\t1").unwrap();
    match packet {
        ServerPacket::ContextInformation(ContextInformationPacket::ExistingUsers {
            count,
            contexts,
        }) => {
            assert_eq!(count, 1);
            assert_eq!(
                contexts,
                vec![UserContext {
                    user_id: "U1".to_string(),
                    username: "Alice".to_string(),
                    color: Color { value: "#abc".to_string() },
                    user_permissions: UserPermissions {
                        rank: 5,
                        can_moderate: true,
                        can_logs: false,
                        can_nickname: true,
                        channel_permissions: 3,
                    },
                    visible: true,
                }]
            );
        }
        other => panic!("not a list of users: {:?}", other),
    }
}

#[test]
fn a_bad_field_in_a_group_is_a_field_error() {
    assert_eq!(
        decode_server("7\t0\t1\tU1\tAlice\t#abc\t5 1 0 1 3\tyes"),
        Err(ParsePacketError::FieldParsingFail)
    );
    assert_eq!(
        decode_server("7\t0\t1\tU1\tAlice\t#abc\t5 1 0 1\t1"),
        Err(ParsePacketError::FieldParsingFail)
    );
    assert_eq!(decode_server("7\t2\t1\tgeneral\t0\t2"), Err(ParsePacketError::FieldParsingFail));
}

#[test]
fn too_few_or_too_many_fields_are_refused_for_every_server_variant() {
    let right = [
        "0\tpong",
        "1\ty\tU1\tAlice\t#ff0000\t5 1 1 1 3\tgeneral\t500",
        "1\tn\tuserfail\t1700000000",
        "1\t1700000000\tU1\tAlice\tred\t5 1 0 1 3\tSEQ1",
        "2\t-12\tU2\thello there\tS9\t10110",
        "3\tU2\tBob\ttimeout\t7\tS10",
        "4\t0\tlounge\t1\t0",
        "4\t1\tlounge\tbar\t0\t1",
        "4\t2\tbar",
        "5\t0\tU3\tCarol\t#123\t5 1 0 1 3\tS11",
        "5\t1\tU3\tS12",
        "5\t2\tgeneral",
        "6\tS9",
        "7\t0\t1\tU1\tAlice\t#abc\t5 1 0 1 3\t1",
        "7\t1\t99\tU1\tAlice\t#fff\t5 1 0 1 3\thi\tS1\t1\t10110",
        "7\t2\t1\tgeneral\t0\t0",
        "8\t4",
        "9\t1\t123",
        "10\tU1\tAlicia\t#0f0\t5 1 0 1 3",
    ];
    for line in right {
        assert!(decode_server(line).is_ok(), "{}", line);
        let longer = format!("{}\t0", line);
        assert_eq!(decode_server(&longer), Err(ParsePacketError::WrongFormat), "{}", longer);
        let cut = line.rfind('\t').unwrap();
        let shorter = &line[..cut];
        assert_eq!(decode_server(shorter), Err(ParsePacketError::WrongFormat), "{}", shorter);
    }
}

#[test]
fn too_few_or_too_many_fields_are_refused_for_every_client_variant() {
    for line in ["0\t61", "1\tMisuzu\ttoken", "2\t61\thi"] {
        assert!(decode_client(line).is_ok());
        let longer = format!("{}\tmore", line);
        assert_eq!(decode_client(&longer), Err(ParsePacketError::WrongFormat));
        let cut = line.rfind('\t').unwrap();
        assert_eq!(decode_client(&line[..cut]), Err(ParsePacketError::WrongFormat));
    }
}

#[test]
fn an_unknown_tag_is_refused() {
    for line in ["11\tx", "-1\tx", "00\tx", "+1\tx", "a\tx", "\tx", ""] {
        assert_eq!(decode_server(line), Err(ParsePacketError::WrongFormat), "{:?}", line);
    }
    for line in ["3\tx", "10\tx", "", " 0\t61"] {
        assert_eq!(decode_client(line), Err(ParsePacketError::WrongFormat), "{:?}", line);
    }
}

#[test]
fn an_unknown_sub_tag_is_refused() {
    assert_eq!(decode_server("4\t3\tlounge"), Err(ParsePacketError::WrongFormat));
    assert_eq!(decode_server("5\t9\tU1\tS1"), Err(ParsePacketError::WrongFormat));
    assert_eq!(decode_server("7\t3\t0"), Err(ParsePacketError::WrongFormat));
    assert_eq!(decode_server("4"), Err(ParsePacketError::WrongFormat));
    assert_eq!(
        ChannelEventPacket::from_parts(parts(&[])),
        Err(ParsePacketError::WrongFormat)
    );
}

#[test]
fn no_fields_at_all_is_empty() {
    assert_eq!(ServerPacket::from_parts(parts(&[])), Err(ParsePacketError::Empty));
    assert_eq!(ClientPacket::from_parts(parts(&[])), Err(ParsePacketError::Empty));
}

#[test]
fn the_fields_of_a_line_decode_as_the_line() {
    assert_eq!(
        ServerPacket::from_parts(parts(&["0", "pong"])),
        Ok(ServerPacket::Pong(PongPacket { text: "pong".to_string() }))
    );
    assert_eq!(
        ClientPacket::from_parts(parts(&["0", "61"])),
        Ok(ClientPacket::Ping(PingPacket { user_id: "61".to_string() }))
    );
    assert_eq!(PongPacket::from_parts(parts(&["pong"])).unwrap().text, "pong");
    assert_eq!(
        PongPacket::from_parts(parts(&["pong"])).unwrap().to_parts(),
        parts(&["pong"])
    );
}

#[test]
fn typed_fields_that_do_not_parse_are_field_errors() {
    assert_eq!(
        decode_server("2\tnow\tU2\thello\tS9\t10110"),
        Err(ParsePacketError::FieldParsingFail)
    );
    assert_eq!(
        decode_server("2\t1\tU2\thello\tS9\t1011"),
        Err(ParsePacketError::FieldParsingFail)
    );
    assert_eq!(
        decode_server("2\t1\tU2\thello\tS9\t10112"),
        Err(ParsePacketError::FieldParsingFail)
    );
    assert_eq!(decode_server("9\ttrue\t123"), Err(ParsePacketError::FieldParsingFail));
    assert_eq!(
        decode_server("9\t1\t9223372036854775808"),
        Err(ParsePacketError::FieldParsingFail)
    );
    assert_eq!(
        decode_server("10\tU1\tAlicia\t#0f0\t256 1 0 1 3"),
        Err(ParsePacketError::FieldParsingFail)
    );
    assert_eq!(decode_server("3\tU2\tBob\tbored\t7\tS10"), Err(ParsePacketError::WrongFormat));
    assert_eq!(
        decode_server("3\tU2\tBob\tleave\tseven\tS10"),
        Err(ParsePacketError::FieldParsingFail)
    );
}

#[test]
fn the_first_bad_field_decides_the_error() {
    assert_eq!(decode_server("3\tU2\tBob\tbored\tseven\tS10"), Err(ParsePacketError::WrongFormat));
    assert_eq!(
        decode_server("1\tn\tnope\tsoon\textra"),
        Err(ParsePacketError::WrongFormat)
    );
}
