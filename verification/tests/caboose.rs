use hubris_servers::api::{ClientError, RequestError};
use hubris_servers::procedure::{Procedure, Progress};
use hubris_servers::update_server::bank::Bank;
use hubris_servers::update_server::caboose::{
    CabooseError, CabooseReply, CabooseRequest, ImageFormat, ImageHeader, ReadCaboose,
};
use hubris_servers::update_server::server::{Config, ServerImpl};
use hubris_servers::update_server::types::{ImageVersion, SlotId, UpdateState};

const BANK: Bank = Bank { base: 0x0810_0000, end: 0x0812_0000 };
const HEADER: u32 = 0x6405_5ADE;
const CABOOSE: u32 = 0xCAB0_0005;
const NAME: [u8; 4] = *b"GITC";

fn reading(lease_len: usize) -> ReadCaboose {
    let server = ServerImpl {
        config: Config {
            bank: BANK,
            words_per_block: 32,
            format: ImageFormat { header_magic: HEADER, caboose_magic: CABOOSE },
            version: ImageVersion { epoch: 0, version: 0 },
        },
        state: UpdateState::NoUpdate,
        pending: SlotId::Active,
    };
    server.read_caboose_value(NAME, lease_len)
}

fn header(total_image_len: u32) -> CabooseReply {
    CabooseReply::Header(ImageHeader { magic: HEADER, total_image_len })
}

/// Feeds the replies in, and returns what was asked for and what came of it.
fn feed(
    mut p: ReadCaboose,
    replies: Vec<CabooseReply>,
) -> (Vec<CabooseRequest>, Option<Result<u32, RequestError<CabooseError>>>) {
    let mut asked = Vec::new();
    for reply in replies {
        asked.push(p.request());
        match p.resume(reply) {
            Progress::Continue(next) => p = next,
            Progress::Finished(outcome) => return (asked, Some(outcome)),
        }
    }
    (asked, None)
}

fn error(replies: Vec<CabooseReply>) -> Option<RequestError<CabooseError>> {
    feed(reading(64), replies).1.and_then(|outcome| outcome.err())
}

#[test]
fn a_value_is_found_and_handed_over_in_pieces() {
    let (asked, outcome) = feed(
        reading(40),
        vec![
            header(0x1000),
            CabooseReply::Word(0x100),
            CabooseReply::Word(CABOOSE),
            CabooseReply::Found(Ok(40)),
            CabooseReply::Written(true),
            CabooseReply::Written(true),
            CabooseReply::Written(true),
        ],
    );
    assert_eq!(
        asked,
        vec![
            CabooseRequest::ReadHeader { address: 0x0810_0298 },
            CabooseRequest::ReadWord { address: 0x0810_0FFC },
            CabooseRequest::ReadWord { address: 0x0810_0F00 },
            CabooseRequest::Find { name: NAME, start: 0x0810_0F04, len: 0xF8 },
            CabooseRequest::WriteRange { pos: 0, end: 16 },
            CabooseRequest::WriteRange { pos: 16, end: 32 },
            CabooseRequest::WriteRange { pos: 32, end: 40 },
        ]
    );
    assert_eq!(outcome, Some(Ok(40)));
}

#[test]
fn a_value_of_whole_pieces_ends_with_a_whole_piece() {
    let (asked, outcome) = feed(
        reading(64),
        vec![
            header(0x1000),
            CabooseReply::Word(0x100),
            CabooseReply::Word(CABOOSE),
            CabooseReply::Found(Ok(32)),
            CabooseReply::Written(true),
            CabooseReply::Written(true),
        ],
    );
    assert_eq!(asked[5], CabooseRequest::WriteRange { pos: 16, end: 32 });
    assert_eq!(outcome, Some(Ok(32)));
}

#[test]
fn an_empty_value_is_handed_over_at_once() {
    let (asked, outcome) = feed(
        reading(0),
        vec![
            header(0x1000),
            CabooseReply::Word(0x100),
            CabooseReply::Word(CABOOSE),
            CabooseReply::Found(Ok(0)),
        ],
    );
    assert_eq!(asked.len(), 4);
    assert_eq!(outcome, Some(Ok(0)));
}

#[test]
fn without_a_header_there_is_no_image() {
    let reply = CabooseReply::Header(ImageHeader { magic: !HEADER, total_image_len: u32::MAX });
    assert_eq!(error(vec![reply]), Some(RequestError::Runtime(CabooseError::NoImageHeader)));
}

#[test]
fn an_image_that_leaves_the_bank_has_no_caboose() {
    assert_eq!(
        error(vec![header(0x2_0001)]),
        Some(RequestError::Runtime(CabooseError::MissingCaboose))
    );
    assert_eq!(error(vec![header(0x2_0000)]), None);
}

#[test]
fn an_erased_size_means_no_caboose() {
    assert_eq!(
        error(vec![header(0x1000), CabooseReply::Word(0xFFFF_FFFF)]),
        Some(RequestError::Runtime(CabooseError::MissingCaboose))
    );
}

#[test]
fn a_caboose_longer_than_its_image_is_none() {
    assert_eq!(
        error(vec![header(0x1000), CabooseReply::Word(0x1001)]),
        Some(RequestError::Runtime(CabooseError::MissingCaboose))
    );
    assert_eq!(error(vec![header(0x1000), CabooseReply::Word(0x1000)]), None);
}

#[test]
fn without_its_magic_number_there_is_no_caboose() {
    assert_eq!(
        error(vec![header(0x1000), CabooseReply::Word(0x100), CabooseReply::Word(CABOOSE + 1)]),
        Some(RequestError::Runtime(CabooseError::MissingCaboose))
    );
}

#[test]
fn a_caboose_too_short_for_its_frame_is_empty() {
    let (asked, _) = feed(
        reading(64),
        vec![
            header(0x1000),
            CabooseReply::Word(6),
            CabooseReply::Word(CABOOSE),
            CabooseReply::Found(Err(4)),
        ],
    );
    assert_eq!(asked[3], CabooseRequest::Find { name: NAME, start: 0x0810_0FFE, len: 0 });
}

#[test]
fn an_error_of_the_reader_is_passed_on() {
    assert_eq!(
        error(vec![
            header(0x1000),
            CabooseReply::Word(0x100),
            CabooseReply::Word(CABOOSE),
            CabooseReply::Found(Err(11)),
        ]),
        Some(RequestError::Runtime(CabooseError::Reader(11)))
    );
}

#[test]
fn a_client_without_room_is_refused() {
    assert_eq!(
        error(vec![
            header(0x1000),
            CabooseReply::Word(0x100),
            CabooseReply::Word(CABOOSE),
            CabooseReply::Found(Ok(65)),
        ]),
        Some(RequestError::Fail(ClientError::BadLease))
    );
}

#[test]
fn a_client_that_is_gone_is_given_no_more() {
    assert_eq!(
        error(vec![
            header(0x1000),
            CabooseReply::Word(0x100),
            CabooseReply::Word(CABOOSE),
            CabooseReply::Found(Ok(64)),
            CabooseReply::Written(true),
            CabooseReply::Written(false),
        ]),
        Some(RequestError::Fail(ClientError::WentAway))
    );
}

#[test]
fn a_caboose_may_fill_the_bank() {
    let (asked, outcome) = feed(
        reading(1),
        vec![
            header(0x2_0000),
            CabooseReply::Word(0x2_0000),
            CabooseReply::Word(CABOOSE),
            CabooseReply::Found(Ok(1)),
            CabooseReply::Written(true),
        ],
    );
    assert_eq!(asked[1], CabooseRequest::ReadWord { address: 0x0811_FFFC });
    assert_eq!(asked[2], CabooseRequest::ReadWord { address: 0x0810_0000 });
    assert_eq!(
        asked[3],
        CabooseRequest::Find { name: NAME, start: 0x0810_0004, len: 0x1_FFF8 }
    );
    assert_eq!(asked[4], CabooseRequest::WriteRange { pos: 0, end: 1 });
    assert_eq!(outcome, Some(Ok(1)));
}

#[test]
fn a_caboose_at_the_end_of_the_bank_has_room_for_its_magic_number() {
    for size in 0..4 {
        assert_eq!(
            error(vec![header(0x2_0000), CabooseReply::Word(size)]),
            Some(RequestError::Runtime(CabooseError::MissingCaboose))
        );
    }
    let (asked, outcome) = feed(
        reading(64),
        vec![
            header(0x2_0000),
            CabooseReply::Word(4),
            CabooseReply::Word(CABOOSE),
            CabooseReply::Found(Err(4)),
        ],
    );
    assert_eq!(asked[2], CabooseRequest::ReadWord { address: 0x0811_FFFC });
    assert_eq!(asked[3], CabooseRequest::Find { name: NAME, start: 0x0812_0000, len: 0 });
    assert_eq!(outcome, Some(Err(RequestError::Runtime(CabooseError::Reader(4)))));
}

#[test]
fn a_short_size_is_no_error_where_the_bank_goes_on() {
    let (asked, _) = feed(
        reading(64),
        vec![header(0x1_FFFC), CabooseReply::Word(0), CabooseReply::Word(CABOOSE + 1)],
    );
    assert_eq!(asked[2], CabooseRequest::ReadWord { address: 0x0811_FFFC });
    assert_eq!(
        error(vec![header(0x1_FFFD), CabooseReply::Word(0)]),
        Some(RequestError::Runtime(CabooseError::MissingCaboose))
    );
}
