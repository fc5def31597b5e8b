use sockchat::packets::client::{AuthenticationPacket, ClientPacket, MessagePacket, PingPacket};
use sockchat::packets::server::{
    ChannelEventPacket, ChannelSwitchingPacket, ChatMessagePacket, ContextClearingPacket,
    ContextInformationPacket, ForcedDisconnectPacket, JoinAuthPacket, MessageDeletionPacket,
    PongPacket, ServerPacket, UserDisconnectPacket, UserUpdatePacket,
};
use sockchat::packets::types::{
    BadAuthReason, ChannelContext, Color, DisconnectReason, MessageFlags, Sockchatable,
    UserContext, UserPermissions,
};
use sockchat::packets::{decode_client, decode_server, encode, Packet};

fn color(text: &str) -> Color {
    Color { value: text.to_string() }
}

fn permissions() -> UserPermissions {
    UserPermissions {
        rank: 5,
        can_moderate: true,
        can_logs: false,
        can_nickname: true,
        channel_permissions: 3,
    }
}

fn flags() -> MessageFlags {
    MessageFlags { bold: true, cursive: false, underlined: true, colon: true, private: false }
}

fn user(id: &str, name: &str, visible: bool) -> UserContext {
    UserContext {
        user_id: id.to_string(),
        username: name.to_string(),
        color: color("#abc"),
        user_permissions: permissions(),
        visible,
    }
}

fn server_packets() -> Vec<(ServerPacket, &'static str)> {
    vec![
        (ServerPacket::Pong(PongPacket { text: "pong".to_string() }), "0\tpong"),
        (
            ServerPacket::JoinAuth(JoinAuthPacket::GoodAuth {
                user_id: "U1".to_string(),
                username: "Alice".to_string(),
                color: color("#ff0000"),
                user_permissions: permissions(),
                channel_name: "general".to_string(),
                max_msg_length: 500,
            }),
            "1\ty\tU1\tAlice\t#ff0000\t5 1 0 1 3\tgeneral\t500",
        ),
        (
            ServerPacket::JoinAuth(JoinAuthPacket::BadAuth {
                reason: BadAuthReason::UserFail,
                timestamp: 1700000000,
            }),
            "1\tn\tuserfail\t1700000000",
        ),
        (
            ServerPacket::JoinAuth(JoinAuthPacket::Join {
                timestamp: 1700000000,
                user_id: "U1".to_string(),
                username: "Alice".to_string(),
                color: color("red"),
                user_permissions: permissions(),
                sequence_id: "SEQ1".to_string(),
            }),
            "1\t1700000000\tU1\tAlice\tred\t5 1 0 1 3\tSEQ1",
        ),
        (
            ServerPacket::ChatMessage(ChatMessagePacket {
                timestamp: -12,
                user_id: "U2".to_string(),
                message: "hello there".to_string(),
                sequence_id: "S9".to_string(),
                message_flags: flags(),
            }),
            "2\t-12\tU2\thello there\tS9\t10110",
        ),
        (
            ServerPacket::UserDisconnect(UserDisconnectPacket {
                user_id: "U2".to_string(),
                username: "Bob".to_string(),
                reason: DisconnectReason::Timeout,
                timestamp: 7,
                sequence_id: "S10".to_string(),
            }),
            "3\tU2\tBob\ttimeout\t7\tS10",
        ),
        (
            ServerPacket::ChannelEvent(ChannelEventPacket::Creation {
                channel_name: "lounge".to_string(),
                is_protected: true,
                is_temporary: false,
            }),
            "4\t0\tlounge\t1\t0",
        ),
        (
            ServerPacket::ChannelEvent(ChannelEventPacket::Update {
                channel_name: "lounge".to_string(),
                new_name: "bar".to_string(),
                is_protected: false,
                is_temporary: true,
            }),
            "4\t1\tlounge\tbar\t0\t1",
        ),
        (
            ServerPacket::ChannelEvent(ChannelEventPacket::Deletion {
                channel_name: "bar".to_string(),
            }),
            "4\t2\tbar",
        ),
        (
            ServerPacket::ChannelSwitching(ChannelSwitchingPacket::Join {
                user_id: "U3".to_string(),
                username: "Carol".to_string(),
                color: color("rgb(1, 2, 3)"),
                user_permissions: permissions(),
                sequence_id: "S11".to_string(),
            }),
            "5\t0\tU3\tCarol\trgb(1, 2, 3)\t5 1 0 1 3\tS11",
        ),
        (
            ServerPacket::ChannelSwitching(ChannelSwitchingPacket::Departure {
                user_id: "U3".to_string(),
                sequence_id: "S12".to_string(),
            }),
            "5\t1\tU3\tS12",
        ),
        (
            ServerPacket::ChannelSwitching(ChannelSwitchingPacket::ForcedSwitch {
                channel_name: "general".to_string(),
            }),
            "5\t2\tgeneral",
        ),
        (
            ServerPacket::MessageDeletion(MessageDeletionPacket { sequence_id: "S9".to_string() }),
            "6\tS9",
        ),
        (
            ServerPacket::ContextInformation(ContextInformationPacket::ExistingUsers {
                count: 2,
                contexts: vec![user("U1", "Alice", true), user("U2", "Bob", false)],
            }),
            "7\t0\t2\tU1\tAlice\t#abc\t5 1 0 1 3\t1\tU2\tBob\t#abc\t5 1 0 1 3\t0",
        ),
        (
            ServerPacket::ContextInformation(ContextInformationPacket::ExistingUsers {
                count: 0,
                contexts: vec![],
            }),
            "7\t0\t0",
        ),
        (
            ServerPacket::ContextInformation(ContextInformationPacket::ExistingMessage {
                timestamp: 99,
                user_id: "U1".to_string(),
                username: "Alice".to_string(),
                color: color("#fff"),
                user_permissions: permissions(),
                message: "".to_string(),
                sequence_id: "S1".to_string(),
                notify: true,
                message_flags: flags(),
            }),
            "7\t1\t99\tU1\tAlice\t#fff\t5 1 0 1 3\t\tS1\t1\t10110",
        ),
        (
            ServerPacket::ContextInformation(ContextInformationPacket::Channels {
                count: 2,
                contexts: vec![
                    ChannelContext {
                        channel_name: "general".to_string(),
                        password_protected: false,
                        temporary: false,
                    },
                    ChannelContext {
                        channel_name: "secret".to_string(),
                        password_protected: true,
                        temporary: true,
                    },
                ],
            }),
            "7\t2\t2\tgeneral\t0\t0\tsecret\t1\t1",
        ),
        (
            ServerPacket::ContextClearing(ContextClearingPacket {
                message_history: true,
                user_list: true,
                channel_list: true,
            }),
            "8\t4",
        ),
        (
            ServerPacket::ForcedDisconnect(ForcedDisconnectPacket { ban: true, timestamp: 123 }),
            "9\t1\t123",
        ),
        (
            ServerPacket::UserUpdate(UserUpdatePacket {
                user_id: "U1".to_string(),
                username: "Alicia".to_string(),
                color: color("hsl(120, 100%, 50%)"),
                user_permissions: permissions(),
            }),
            "10\tU1\tAlicia\thsl(120, 100%, 50%)\t5 1 0 1 3",
        ),
    ]
}

#[test]
fn it_works() {
    assert!(true)
}

#[test]
fn every_server_variant_encodes_to_its_line() {
    for (packet, line) in server_packets() {
        assert!(packet.is_encodable());
        assert_eq!(packet.to_sockstr(), line);
    }
}

#[test]
fn every_server_variant_decodes_from_its_line() {
    for (packet, line) in server_packets() {
        assert_eq!(decode_server(line), Ok(packet));
    }
}

#[test]
fn every_server_variant_survives_a_round_trip() {
    for (packet, _) in server_packets() {
        let line = packet.to_sockstr();
        let decoded = decode_server(&line);
        assert_eq!(decoded, Ok(packet));
        let again = decoded.unwrap().to_sockstr();
        assert_eq!(again, line);
    }
}

#[test]
fn server_triple_conversion_of_sample_lines() {
    let lines = [
        "0\tpong",
        "1\ty\t61\tflash\t#f00\t10 1 1 1 2\tLounge\t6000",
        "1\tn\tauthfail\t-1",
        "1\t+1700000000\tU1\tAlice\t#ff0000\t5\x0c1\x0c1\x0c1\x0c3\tSEQ1",
        "2\t001700000000\t-1\thello\twelcome\t10010z",
        "3\t61\tflash\tkick\t1700000000\t77",
        "4\t1\tLounge\tBar\t1\t0",
        "5\t0\t61\tflash\tinherit\t0 0 0 0 0\t78",
        "7\t0\t1\t61\tflash\t#f00\t+10 1 1 1 002\t1",
        "7\t2\t1\tLounge\t0\t0",
        "8\t3",
        "9\t0\t-0",
        "10\t61\tflash\t#0f0\t255 0 0 0 255",
    ];
    for line in lines {
        let packet = Packet::Server(line.parse::<ServerPacket>().unwrap());
        let converted = packet.to_sockstr();
        let reconverted =
            Packet::Server(converted.parse::<ServerPacket>().unwrap()).to_sockstr();
        assert_eq!(converted, reconverted, "tripple conversion mismatch");
    }
}

#[test]
fn decoding_normalises_numbers_and_separators() {
    let packet = decode_server("1\t+1700000000\tU1\tAlice\t#ff0000\t5\x0c1\x0c1\x0c1\x0c3\tSEQ1");
    assert_eq!(
        packet.unwrap().to_sockstr(),
        "1\t1700000000\tU1\tAlice\t#ff0000\t5 1 1 1 3\tSEQ1"
    );
    let packet = decode_server("2\t001700000000\t-1\thello\twelcome\t10010z");
    assert_eq!(packet.unwrap().to_sockstr(), "2\t1700000000\t-1\thello\twelcome\t10010");
}

#[test]
fn a_tab_in_a_text_breaks_the_round_trip() {
    let packet = ServerPacket::Pong(PongPacket { text: "a\tb".to_string() });
    let line = packet.to_sockstr();
    assert_eq!(line, "0\ta\tb");
    assert_eq!(decode_server(&line), Err(sockchat::packets::types::ParsePacketError::WrongFormat));
}

fn client_packets() -> Vec<(ClientPacket, &'static str)> {
    vec![
        (ClientPacket::Ping(PingPacket { user_id: "61".to_string() }), "0\t61"),
        (
            ClientPacket::Authentication(AuthenticationPacket {
                method: "Misuzu".to_string(),
                authkey: "token".to_string(),
            }),
            "1\tMisuzu\ttoken",
        ),
        (
            ClientPacket::Message(MessagePacket {
                user_id: "61".to_string(),
                message: "hi all".to_string(),
            }),
            "2\t61\thi all",
        ),
    ]
}

#[test]
fn every_client_variant_survives_a_round_trip() {
    for (packet, line) in client_packets() {
        assert_eq!(packet.to_sockstr(), line);
        assert_eq!(decode_client(line), Ok(packet.clone()));
        assert_eq!(line.parse::<ClientPacket>(), Ok(packet.clone()));
        assert_eq!(decode_client(&packet.to_sockstr()).unwrap().to_sockstr(), line);
    }
}

#[test]
fn the_envelope_encodes_either_direction() {
    let client = Packet::Client(ClientPacket::Ping(PingPacket { user_id: "61".to_string() }));
    assert!(client.is_encodable());
    assert_eq!(encode(&client), "0\t61");
    let server = Packet::Server(ServerPacket::MessageDeletion(MessageDeletionPacket {
        sequence_id: "S9".to_string(),
    }));
    assert!(server.is_encodable());
    assert_eq!(encode(&server), "6\tS9");
    assert_eq!(server.to_sockstr(), "6\tS9");
}

#[test]
fn a_list_with_another_count_is_encoded_but_not_valid() {
    let packet = ServerPacket::ContextInformation(ContextInformationPacket::ExistingUsers {
        count: 2,
        contexts: vec![user("U1", "Alice", true)],
    });
    assert!(packet.is_encodable());
    assert!(!packet.is_valid());
    let line = packet.to_sockstr();
    assert_eq!(line, "7\t0\t2\tU1\tAlice\t#abc\t5 1 0 1 3\t1");
    assert_eq!(decode_server(&line), Err(sockchat::packets::types::ParsePacketError::WrongFormat));
    let packet = ContextInformationPacket::Channels { count: -1, contexts: vec![] };
    assert!(!packet.is_counted());
    let packet = ContextInformationPacket::Channels { count: 0, contexts: vec![] };
    assert!(packet.is_counted());
    for (packet, _) in server_packets() {
        assert!(packet.is_valid());
    }
}

#[test]
fn a_combination_without_a_code_is_not_encodable() {
    for (message_history, user_list, channel_list) in
        [(false, false, false), (false, true, true), (true, false, true)]
    {
        let cleared = ContextClearingPacket { message_history, user_list, channel_list };
        assert!(!cleared.has_code());
        assert!(!ServerPacket::ContextClearing(cleared).is_encodable());
        assert!(!ServerPacket::ContextClearing(cleared).is_valid());
        assert!(!Packet::Server(ServerPacket::ContextClearing(cleared)).is_encodable());
    }
}
