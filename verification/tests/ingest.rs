use rendmp::ingest::{
    dma_address_from, ingest_fields, ingest_line, packet_chunks, payload_from,
    pmbus_address_from, read_address, read_payload, rendmp_gen, rendmp_ingest, Address,
    IngestError, Number, Packet, COMMIT,
};
use rendmp::ops::{all_commands, CommandInfo, DmaCommand, Operation, ProtocolError};

fn info(name: &str, read_op: Operation, write_op: Operation) -> Option<CommandInfo> {
    Some(CommandInfo { name: name.to_string(), read_op, write_op })
}

fn commands() -> Vec<Option<CommandInfo>> {
    let mut commands: Vec<Option<CommandInfo>> = (0..256).map(|_| None).collect();
    commands[0x00] = info("PAGE", Operation::ReadByte, Operation::WriteByte);
    commands[0x21] = info("VOUT_COMMAND", Operation::ReadWord, Operation::WriteWord);
    commands[0xc5] = info("DMAFIX", Operation::ReadWord32, Operation::WriteWord32);
    commands[0xc6] = info("DMASEQ", Operation::ReadWord32, Operation::WriteWord32);
    commands[0xc7] = info("DMAADDR", Operation::ReadWord, Operation::WriteWord);
    commands[0xe7] = info("APPLY_SETTINGS", Operation::Illegal, Operation::WriteWord);
    commands[0xff] = info("LAST", Operation::ReadByte, Operation::WriteByte);
    commands
}

fn line(text: &str) -> Result<Option<Packet>, IngestError> {
    ingest_line(text, 5, &commands())
}

fn pmbus(code: u8, name: &str, payload: &[u8]) -> Packet {
    Packet { address: Address::Pmbus(code, name.to_string()), payload: payload.to_vec() }
}

fn dma(addr: u16, payload: &[u8]) -> Packet {
    Packet { address: Address::Dma(addr), payload: payload.to_vec() }
}

#[test]
fn empty_lines_and_comments_carry_nothing() {
    assert_eq!(line(""), Ok(None));
    assert_eq!(line("#"), Ok(None));
    assert_eq!(line("# Configuration for ISL68224"), Ok(None));
    assert_eq!(line("#a 0x00 # 0x00"), Ok(None));
}

#[test]
fn the_width_of_the_value_is_that_of_its_text() {
    assert_eq!(line("PAGE 0x01 # 0x00"), Ok(Some(pmbus(0x00, "PAGE", &[0x01]))));
    assert_eq!(
        line("VOUT_COMMAND 0x1234 # 0x21"),
        Ok(Some(pmbus(0x21, "VOUT_COMMAND", &[0x34, 0x12])))
    );
    assert_eq!(
        line("VOUT_COMMAND 0x12345678 # 0x21"),
        Ok(Some(pmbus(0x21, "VOUT_COMMAND", &[0x78, 0x56, 0x34, 0x12])))
    );
    assert_eq!(line("X 0x0001 # 0x00"), Ok(Some(pmbus(0x00, "PAGE", &[0x01, 0x00]))));
    assert_eq!(line("X 0xFfFfFfFf # 0x00"), Ok(Some(pmbus(0x00, "PAGE", &[0xff; 4]))));
}

#[test]
fn a_long_address_is_one_of_device_memory() {
    assert_eq!(line("DMA 0x00000001 # 0xE904"), Ok(Some(dma(0xe904, &[1, 0, 0, 0]))));
    assert_eq!(line("DMA 0x7f # 0x0123"), Ok(Some(dma(0x0123, &[0x7f]))));
    assert_eq!(line("DMA 0x7f # 0x021"), Ok(Some(dma(0x21, &[0x7f]))));
    assert_eq!(line("DMA 0x7f # 0x21"), Ok(Some(pmbus(0x21, "VOUT_COMMAND", &[0x7f]))));
    assert_eq!(line("DMA 0x7f # 0x0"), Ok(Some(pmbus(0x00, "PAGE", &[0x7f]))));
}

#[test]
fn fields_are_split_at_any_white_space() {
    let expected = Ok(Some(pmbus(0x21, "VOUT_COMMAND", &[0x34, 0x12])));
    assert_eq!(line("VOUT_COMMAND\t0x1234\t#\t0x21"), expected);
    assert_eq!(line("  VOUT_COMMAND   0x1234 #    0x21  "), expected);
    assert_eq!(line("VOUT_COMMAND\u{a0}0x1234\u{2003}# 0x21\r"), expected);
}

#[test]
fn a_line_wants_four_fields_with_a_hash() {
    for text in [
        "PAGE",
        "PAGE 0x01",
        "PAGE 0x01 #",
        "PAGE 0x01 # 0x00 more",
        "PAGE 0x01 #0x00",
        "PAGE 0x01 ## 0x00",
        "PAGE 0x01 0x00 #",
        "PAGE 0x01 x 0x00",
        " ",
    ] {
        assert_eq!(line(text), Err(IngestError::Malformed { line: 5 }), "{:?}", text);
    }
}

#[test]
fn the_value_must_be_a_hexadecimal_number_of_a_known_width() {
    assert_eq!(line("PAGE 01 # 0x00"), Err(IngestError::BadPayloadPrefix { line: 5 }));
    assert_eq!(line("PAGE 0X01 # 0x00"), Err(IngestError::BadPayloadPrefix { line: 5 }));
    assert_eq!(line("PAGE x01 # 0x00"), Err(IngestError::BadPayloadPrefix { line: 5 }));
    assert_eq!(line("PAGE 0x0g # 0x00"), Err(IngestError::BadPayload { line: 5 }));
    assert_eq!(line("PAGE 0x12zz # 0x00"), Err(IngestError::BadPayload { line: 5 }));
    assert_eq!(line("PAGE 0x1234567z # 0x00"), Err(IngestError::BadPayload { line: 5 }));
    assert_eq!(line("PAGE 0x # 0x00"), Err(IngestError::BadPayloadSize { line: 5 }));
    assert_eq!(line("PAGE 0x1 # 0x00"), Err(IngestError::BadPayloadSize { line: 5 }));
    assert_eq!(line("PAGE 0x123 # 0x00"), Err(IngestError::BadPayloadSize { line: 5 }));
    assert_eq!(line("PAGE 0x123456 # 0x00"), Err(IngestError::BadPayloadSize { line: 5 }));
    assert_eq!(line("PAGE 0x123456789 # 0x00"), Err(IngestError::BadPayloadSize { line: 5 }));
}

#[test]
fn values_are_parsed_as_the_parser_crate_does() {
    // An underscore is left out, so that two digits fewer remain.
    assert_eq!(line("PAGE 0x1_ # 0x00"), Ok(Some(pmbus(0, "PAGE", &[0x01]))));
    assert_eq!(line("PAGE 0x1_2_ # 0x00"), Ok(Some(pmbus(0, "PAGE", &[0x12, 0x00]))));
    assert_eq!(line("PAGE 0x__ # 0x00"), Err(IngestError::BadPayload { line: 5 }));
    // A sign is a sign of the number.
    assert_eq!(line("PAGE 0x+f # 0x00"), Ok(Some(pmbus(0, "PAGE", &[0x0f]))));
    assert_eq!(line("PAGE 0x-f # 0x00"), Err(IngestError::BadPayload { line: 5 }));
    // The width is counted in bytes, not in characters.
    assert_eq!(line("PAGE 0x\u{e9} # 0x00"), Err(IngestError::BadPayload { line: 5 }));
}

#[test]
fn the_address_must_be_a_hexadecimal_number() {
    assert_eq!(line("PAGE 0x01 # 00"), Err(IngestError::BadAddress { line: 5 }));
    assert_eq!(line("PAGE 0x01 # 1x00"), Err(IngestError::BadAddress { line: 5 }));
    assert_eq!(line("PAGE 0x01 # 0xzz"), Err(IngestError::BadPmbusAddress { line: 5 }));
    assert_eq!(line("PAGE 0x01 # 0x"), Err(IngestError::BadPmbusAddress { line: 5 }));
    assert_eq!(line("PAGE 0x01 # 0x12zz"), Err(IngestError::BadDmaAddress { line: 5 }));
    assert_eq!(line("PAGE 0x01 # 0x12345"), Err(IngestError::BadDmaAddress { line: 5 }));
}

#[test]
fn the_value_is_looked_at_before_the_address() {
    assert_eq!(line("PAGE 0x0g # 00"), Err(IngestError::BadPayload { line: 5 }));
    assert_eq!(line("PAGE 01 # 00"), Err(IngestError::BadPayloadPrefix { line: 5 }));
}

#[test]
fn the_command_of_an_address_must_be_known() {
    assert_eq!(line("X 0x01 # 0x01"), Err(IngestError::UnknownCommand { line: 5, code: 1 }));
    assert_eq!(line("X 0x01 # 0xfe"), Err(IngestError::UnknownCommand { line: 5, code: 0xfe }));
    // The code 0xff is never looked up, whatever the database says of it.
    assert_eq!(line("X 0x01 # 0xff"), Err(IngestError::UnknownCommand { line: 5, code: 0xff }));
    assert_eq!(
        ingest_line("X 0x01 # 0x21", 1, &vec![]),
        Err(IngestError::UnknownCommand { line: 1, code: 0x21 })
    );
}

#[test]
fn a_text_gives_its_packets_and_the_commit() {
    let text = vec![
        "# Device: ISL68224".to_string(),
        String::new(),
        "PAGE 0x00 # 0x00".to_string(),
        "DMA 0x0000A5A5 # 0xE904".to_string(),
        "# end".to_string(),
        "VOUT_COMMAND 0x0320 # 0x21".to_string(),
    ];
    assert_eq!(COMMIT, 0xe7);
    assert_eq!(
        rendmp_ingest(&text, &commands()),
        Ok(vec![
            pmbus(0x00, "PAGE", &[0x00]),
            dma(0xe904, &[0xa5, 0xa5, 0x00, 0x00]),
            pmbus(0x21, "VOUT_COMMAND", &[0x20, 0x03]),
            pmbus(0xe7, "APPLY_SETTINGS", &[1, 0]),
        ])
    );
    assert_eq!(
        rendmp_ingest(&vec![], &commands()),
        Ok(vec![pmbus(0xe7, "APPLY_SETTINGS", &[1, 0])])
    );
}

#[test]
fn the_first_faulty_line_of_a_text_is_reported() {
    let text = vec![
        "# Device: ISL68224".to_string(),
        "PAGE 0x00 # 0x00".to_string(),
        "PAGE 0x00 0x00".to_string(),
        "PAGE 00 # 0x00".to_string(),
    ];
    assert_eq!(rendmp_ingest(&text, &commands()), Err(IngestError::Malformed { line: 3 }));
    assert_eq!(
        rendmp_ingest(&text[3..].to_vec(), &commands()),
        Err(IngestError::BadPayloadPrefix { line: 1 })
    );
}

#[test]
fn a_text_needs_the_commit_command() {
    let mut without = commands();
    without[0xe7] = None;
    assert_eq!(
        rendmp_ingest(&vec!["PAGE 0x00 # 0x00".to_string()], &without),
        Err(IngestError::NoCommit)
    );
    assert_eq!(
        rendmp_ingest(&vec!["PAGE".to_string()], &without),
        Err(IngestError::Malformed { line: 1 })
    );
}

#[test]
fn a_packet_for_a_command_is_one_chunk() {
    assert_eq!(
        packet_chunks(&pmbus(0x21, "VOUT_COMMAND", &[0x20, 0x03]), 0xc7, 0xc5),
        vec![vec![0x21, 0x20, 0x03]]
    );
    assert_eq!(packet_chunks(&pmbus(0x00, "PAGE", &[]), 0xc7, 0xc5), vec![vec![0x00]]);
}

#[test]
fn a_packet_for_device_memory_is_two_chunks() {
    assert_eq!(
        packet_chunks(&dma(0xe904, &[0xa5, 0xa6, 0x00, 0x01]), 0xc7, 0xc5),
        vec![vec![0xc7, 0x04, 0xe9], vec![0xc5, 0xa5, 0xa6, 0x00, 0x01]]
    );
    assert_eq!(
        packet_chunks(&dma(0x00ff, &[1]), 1, 2),
        vec![vec![1, 0xff, 0x00], vec![2, 1]]
    );
}

#[test]
fn the_table_holds_the_chunks_of_the_packets_in_order() {
    let packets = vec![
        pmbus(0x00, "PAGE", &[0x00]),
        dma(0xe904, &[0xa5, 0xa6, 0x00, 0x01]),
        pmbus(0x21, "VOUT_COMMAND", &[0x20, 0x03]),
        dma(0x00ff, &[1]),
        pmbus(0xe7, "APPLY_SETTINGS", &[1, 0]),
    ];
    assert_eq!(
        rendmp_gen(&packets, &all_commands(&commands())),
        Ok(vec![
            vec![0x00, 0x00],
            vec![0xc7, 0x04, 0xe9],
            vec![0xc5, 0xa5, 0xa6, 0x00, 0x01],
            vec![0x21, 0x20, 0x03],
            vec![0xc7, 0xff, 0x00],
            vec![0xc5, 1],
            vec![0xe7, 1, 0],
        ])
    );
    assert_eq!(rendmp_gen(&vec![], &all_commands(&commands())), Ok(vec![]));
}

#[test]
fn the_table_is_that_of_the_text() {
    let text = vec!["DMA 0x0000A5A5 # 0xE904".to_string(), "PAGE 0x01 # 0x00".to_string()];
    let packets = rendmp_ingest(&text, &commands()).unwrap();
    let mut moved = commands();
    moved[0xc7] = None;
    moved[0x10] = info("DMAADDR", Operation::Illegal, Operation::WriteWord);
    moved[0xc5] = None;
    moved[0x11] = info("DMAFIX", Operation::Illegal, Operation::WriteWord32);
    assert_eq!(
        rendmp_gen(&packets, &all_commands(&moved)),
        Ok(vec![
            vec![0x10, 0x04, 0xe9],
            vec![0x11, 0xa5, 0xa5, 0x00, 0x00],
            vec![0x00, 0x01],
            vec![0xe7, 1, 0],
        ])
    );
}

#[test]
fn the_table_needs_the_two_commands_of_the_right_kinds() {
    let packets = vec![pmbus(0x00, "PAGE", &[0x00])];
    let mut other = commands();
    other[0xc5] = info("DMAFIX", Operation::ReadWord32, Operation::WriteWord);
    assert_eq!(
        rendmp_gen(&packets, &all_commands(&other)),
        Err(ProtocolError::Mismatch { command: DmaCommand::Fixed, found: Operation::WriteWord })
    );
    other[0xc5] = None;
    assert_eq!(
        rendmp_gen(&packets, &all_commands(&other)),
        Err(ProtocolError::Missing { command: DmaCommand::Fixed })
    );
    other[0xc7] = info("DMAADDR", Operation::ReadWord, Operation::WriteWord32);
    assert_eq!(
        rendmp_gen(&vec![], &all_commands(&other)),
        Err(ProtocolError::Mismatch {
            command: DmaCommand::Address,
            found: Operation::WriteWord32
        })
    );
    other[0xc7] = None;
    assert_eq!(
        rendmp_gen(&packets, &all_commands(&other)),
        Err(ProtocolError::Missing { command: DmaCommand::Address })
    );
}

#[test]
fn a_number_that_was_read_gives_its_bytes() {
    assert_eq!(payload_from(Number::Byte(Some(0x12)), 3), Ok(vec![0x12]));
    assert_eq!(payload_from(Number::Word(Some(0x1234)), 3), Ok(vec![0x34, 0x12]));
    assert_eq!(payload_from(Number::Word(Some(0x0012)), 3), Ok(vec![0x12, 0x00]));
    assert_eq!(
        payload_from(Number::Long(Some(0x1234_5678)), 3),
        Ok(vec![0x78, 0x56, 0x34, 0x12])
    );
    assert_eq!(payload_from(Number::Long(Some(1)), 3), Ok(vec![1, 0, 0, 0]));
    assert_eq!(payload_from(Number::Byte(None), 3), Err(IngestError::BadPayload { line: 3 }));
    assert_eq!(payload_from(Number::Word(None), 4), Err(IngestError::BadPayload { line: 4 }));
    assert_eq!(payload_from(Number::Long(None), 5), Err(IngestError::BadPayload { line: 5 }));
}

#[test]
fn an_address_that_was_read() {
    assert_eq!(dma_address_from(Some(0xe904), 2), Ok(Address::Dma(0xe904)));
    assert_eq!(dma_address_from(None, 2), Err(IngestError::BadDmaAddress { line: 2 }));
    assert_eq!(
        pmbus_address_from(Some(0x21), 2, &commands()),
        Ok(Address::Pmbus(0x21, "VOUT_COMMAND".to_string()))
    );
    assert_eq!(
        pmbus_address_from(Some(0x22), 2, &commands()),
        Err(IngestError::UnknownCommand { line: 2, code: 0x22 })
    );
    assert_eq!(
        pmbus_address_from(Some(0xff), 2, &commands()),
        Err(IngestError::UnknownCommand { line: 2, code: 0xff })
    );
    assert_eq!(
        pmbus_address_from(None, 2, &commands()),
        Err(IngestError::BadPmbusAddress { line: 2 })
    );
}

#[test]
fn value_and_address_on_their_own() {
    assert_eq!(read_payload("0xa5", 1), Ok(vec![0xa5]));
    assert_eq!(read_payload("0x00a5", 1), Ok(vec![0xa5, 0x00]));
    assert_eq!(read_payload("0xa5", 1), Ok(vec![0xa5]));
    assert_eq!(read_payload("a5", 1), Err(IngestError::BadPayloadPrefix { line: 1 }));
    assert_eq!(read_payload("", 1), Err(IngestError::BadPayloadPrefix { line: 1 }));
    assert_eq!(read_payload("0", 1), Err(IngestError::BadPayloadPrefix { line: 1 }));
    assert_eq!(read_address("0xe904", 1, &commands()), Ok(Address::Dma(0xe904)));
    assert_eq!(
        read_address("0x0", 1, &commands()),
        Ok(Address::Pmbus(0, "PAGE".to_string()))
    );
    assert_eq!(read_address("e904", 1, &commands()), Err(IngestError::BadAddress { line: 1 }));
}

#[test]
fn the_fields_of_a_line() {
    let fields = |text: &[&str]| text.iter().map(|f| f.to_string()).collect::<Vec<String>>();
    assert_eq!(
        ingest_fields(&fields(&["VOUT", "0x1234", "#", "0x21"]), 8, &commands()),
        Ok(pmbus(0x21, "VOUT_COMMAND", &[0x34, 0x12]))
    );
    assert_eq!(
        ingest_fields(&fields(&["a b", "0x12", "#", "0x0021"]), 8, &commands()),
        Ok(dma(0x21, &[0x12]))
    );
    assert_eq!(
        ingest_fields(&fields(&["VOUT", "0x1234", "#"]), 8, &commands()),
        Err(IngestError::Malformed { line: 8 })
    );
    assert_eq!(
        ingest_fields(&fields(&[]), 8, &commands()),
        Err(IngestError::Malformed { line: 8 })
    );
    assert_eq!(
        ingest_fields(&fields(&["VOUT", "0x1234", "", "0x21"]), 8, &commands()),
        Err(IngestError::Malformed { line: 8 })
    );
    assert_eq!(
        ingest_fields(&fields(&["VOUT", "0x1234", "# ", "0x21"]), 8, &commands()),
        Err(IngestError::Malformed { line: 8 })
    );
}
