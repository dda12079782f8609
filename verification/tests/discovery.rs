use minecraft_relay::discovery::element::{element, elements, lookup, Element};
use minecraft_relay::discovery::{
    DiscoveryPacket, DiscoveryPacketEncodeError, DiscoveryPacketParseError, MAX_PACKET_SIZE,
};
use nom::IResult;
use std::collections::HashMap;

/// The grammar of an announcement, written with combinators.
fn combined_element(input: &[u8]) -> IResult<&[u8], (&[u8], &[u8])> {
    let (input, name) = nom::sequence::delimited(
        nom::character::complete::char('['),
        nom::bytes::complete::is_not("]"),
        nom::character::complete::char(']'),
    )(input)?;
    let (input, data) = nom::bytes::complete::take_until("[/")(input)?;
    let (input, _) = nom::sequence::tuple((
        nom::bytes::complete::tag("[/"),
        nom::bytes::complete::tag(name),
        nom::character::complete::char(']'),
    ))(input)?;
    Ok((input, (name, data)))
}

fn combined_elements(input: &[u8]) -> HashMap<&[u8], &[u8]> {
    let parsed: IResult<&[u8], HashMap<&[u8], &[u8]>> = nom::multi::fold_many0(
        combined_element,
        HashMap::default(),
        |mut map: HashMap<_, _>, (k, v)| {
            map.insert(k, v);
            map
        },
    )(input);
    parsed.unwrap().1
}

fn combined_parse(data: &[u8]) -> Result<(u16, Vec<u8>), Vec<u8>> {
    let map = combined_elements(data);
    let port_data = match map.get(&b"AD"[..]) {
        Some(port_data) => *port_data,
        None => return Err(Vec::new()),
    };
    let port = std::str::from_utf8(port_data).map_err(|_| port_data.to_vec())?;
    let port: u16 = port.parse().map_err(|_| port_data.to_vec())?;
    let motd = map.get(&b"MOTD"[..]).map(|motd| *motd).unwrap_or_default();
    Ok((port, motd.to_vec()))
}

fn parse(data: &[u8]) -> Result<(u16, Vec<u8>), Vec<u8>> {
    match DiscoveryPacket::parse(data) {
        Ok(packet) => Ok((packet.port, packet.motd.to_vec())),
        Err(DiscoveryPacketParseError::InvalidPort(port)) => Err(port.to_vec()),
    }
}

#[test]
fn an_announcement_is_parsed() {
    let packet = DiscoveryPacket::parse(b"[MOTD]A world[/MOTD][AD]25565[/AD]").unwrap();
    assert_eq!(packet.port, 25565);
    assert_eq!(packet.motd, b"A world");
}

#[test]
fn the_description_may_be_missing_or_follow() {
    assert_eq!(parse(b"[AD]1[/AD]"), Ok((1, vec![])));
    assert_eq!(parse(b"[AD]1[/AD][MOTD]x[/MOTD]"), Ok((1, b"x".to_vec())));
    assert_eq!(parse(b"[MOTD][/MOTD][AD]1[/AD]"), Ok((1, vec![])));
}

#[test]
fn the_last_element_with_a_name_counts() {
    assert_eq!(parse(b"[AD]1[/AD][AD]2[/AD]"), Ok((2, vec![])));
    assert_eq!(parse(b"[AD]1[/AD][AD]x[/AD]"), Err(b"x".to_vec()));
}

#[test]
fn a_missing_port_is_reported_as_nothing() {
    assert_eq!(parse(b""), Err(vec![]));
    assert_eq!(parse(b"[MOTD]x[/MOTD]"), Err(vec![]));
    assert_eq!(parse(b"x[AD]1[/AD]"), Err(vec![]));
}

#[test]
fn a_text_that_is_no_port_is_reported() {
    for bad in ["", "x", "65536", "-1", "+", "1 ", " 1", "99999999999999999999", "++1"] {
        let text = format!("[AD]{}[/AD]", bad);
        assert_eq!(parse(text.as_bytes()), Err(bad.as_bytes().to_vec()));
    }
    assert_eq!(parse(b"[AD]\xff[/AD]"), Err(vec![0xff]));
}

#[test]
fn ports_may_have_a_sign_and_leading_zeros() {
    assert_eq!(parse(b"[AD]+80[/AD]"), Ok((80, vec![])));
    assert_eq!(parse(b"[AD]000000000065535[/AD]"), Ok((65535, vec![])));
    assert_eq!(parse(b"[AD]0[/AD]"), Ok((0, vec![])));
}

#[test]
fn the_parser_agrees_with_the_combinators() {
    // Every text of up to seven signs out of an alphabet that makes elements likely.
    let alphabet = b"[]/A1";
    let mut texts: Vec<Vec<u8>> = vec![vec![]];
    let mut all = texts.clone();
    for _ in 0..7 {
        let mut longer = Vec::new();
        for text in &texts {
            for sign in alphabet {
                let mut next = text.clone();
                next.push(*sign);
                longer.push(next);
            }
        }
        all.extend(longer.iter().cloned());
        texts = longer;
    }
    for text in &all {
        let expected = combined_element(text).ok();
        let found = element(text).map(|(rest, e)| (rest, (e.name, e.data)));
        assert_eq!(found, expected);
    }
}

#[test]
fn announcements_agree_with_the_combinators() {
    let pieces = [
        "[AD]1[/AD]", "[AD]+7[/AD]", "[AD]70000[/AD]", "[MOTD]a[b[/MOTD]", "[MOTD]a[/b[/MOTD]",
        "[x][/x]", "[", "]", "[]z[/]", "[AD][/AD]", "[MOTD]m[/MOTD]", "AD", "[/AD]",
    ];
    for a in pieces {
        for b in pieces {
            for c in pieces {
                for d in pieces {
                    let text = format!("{}{}{}{}", a, b, c, d);
                    assert_eq!(parse(text.as_bytes()), combined_parse(text.as_bytes()));
                }
            }
        }
    }
}

#[test]
fn an_element_reads_back_with_what_follows() {
    let (rest, found) = element(b"[a]b[c[/a]rest").unwrap();
    assert_eq!(rest, b"rest");
    assert_eq!(found, Element { name: b"a", data: b"b[c" });
    assert!(element(b"[a]b[/c[/a]rest").is_none());
    assert!(element(b"[]b[/]").is_none());
}

#[test]
fn elements_stop_where_none_stands() {
    let found = elements(b"[a]1[/a][b]2[/b]x[c]3[/c]");
    assert_eq!(found.len(), 2);
    assert_eq!(lookup(&found, b"b"), Some(&b"2"[..]));
    assert_eq!(lookup(&found, b"c"), None);
}

#[test]
fn an_announcement_is_encoded() {
    let packet = DiscoveryPacket { port: 25565, motd: b"A world" };
    let mut buf = [7u8; 40];
    let len = packet.encode(&mut buf).unwrap();
    assert_eq!(&buf[..len], &b"[MOTD]A world[/MOTD][AD]25565[/AD]"[..]);
    assert!(buf[len..].iter().all(|byte| *byte == 7));
}

#[test]
fn an_encoded_announcement_is_parsed_back() {
    for port in [0u16, 1, 9, 10, 99, 100, 65535] {
        for motd in [&b""[..], b"x", b"]/", b"\xff\x00", &[b'm'; 256]] {
            let packet = DiscoveryPacket { port, motd };
            let data = packet.datagram().unwrap();
            assert!(data.len() <= MAX_PACKET_SIZE);
            assert_eq!(DiscoveryPacket::parse(&data), Ok(packet));
        }
    }
}

#[test]
fn a_description_with_a_bracket_is_refused() {
    let packet = DiscoveryPacket { port: 1, motd: b"a[b" };
    let mut buf = [7u8; 40];
    assert_eq!(
        packet.encode(&mut buf),
        Err(DiscoveryPacketEncodeError::InvalidMotd(b"a[b".to_vec()))
    );
    assert_eq!(buf, [7u8; 40]);
    assert_eq!(
        packet.datagram(),
        Err(DiscoveryPacketEncodeError::InvalidMotd(b"a[b".to_vec()))
    );
}

#[test]
fn a_long_description_is_refused() {
    let motd = [b'm'; 257];
    let packet = DiscoveryPacket { port: 1, motd: &motd };
    assert_eq!(
        packet.datagram(),
        Err(DiscoveryPacketEncodeError::InvalidMotd(motd.to_vec()))
    );
    let packet = DiscoveryPacket { port: 1, motd: &motd[..256] };
    assert_eq!(packet.datagram().unwrap().len(), 256 + 6 + 11 + 1 + 5);
}

#[test]
fn a_small_buffer_takes_what_fits() {
    let packet = DiscoveryPacket { port: 12, motd: b"abc" };
    let text = b"[MOTD]abc[/MOTD][AD]12[/AD]";
    for room in 0..text.len() {
        let mut buf = vec![7u8; room];
        assert_eq!(packet.encode(&mut buf), Err(DiscoveryPacketEncodeError::BufferTooSmall));
        let written = if (6..9).contains(&room) { 6 } else { room };
        assert_eq!(&buf[..written], &text[..written]);
        assert!(buf[written..].iter().all(|byte| *byte == 7));
    }
    let mut buf = vec![7u8; text.len()];
    assert_eq!(packet.encode(&mut buf), Ok(text.len()));
    assert_eq!(&buf[..], &text[..]);
}
