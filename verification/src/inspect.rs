//! Inspection of a dynamic VHD image: the footer, the dynamic disk header,
//! the block allocation table and the regions of every block, decided step
//! by step from what a byte source answers.

use crate::bat::{table_translation_of, translate_all, BlockRegions};
use crate::error::DecodeError;
use crate::source::{served, window, ByteSource, OutcomeModel, ReadOutcome};
use crate::vhd::{
    dynamic_header_magic, dynamic_header_of, footer_magic, footer_of, lemma_footer_of_prefix,
    read_bat_entries, table_entries, table_fits, DynamicDiskHeader, DynamicHeaderModel,
    FooterModel, VhdFooter,
};
use vstd::pervasive::unreached;
use vstd::prelude::*;

verus! {

/// Why a source was found not to be a dynamic VHD image.
#[derive(Debug, Clone, Copy, PartialEq, Eq, Structural)]
pub enum Rejection {
    /// The footer region is too short or does not carry the footer magic.
    FooterInvalid,
    /// The dynamic disk header region is too short or does not carry its
    /// magic.
    DynamicHeaderInvalid,
}

/// How an inspection ended that met no failure.
#[derive(Debug, PartialEq, Eq)]
pub enum InspectionReport {
    /// The source is not an image of this format.
    Rejected(Rejection),
    /// The decoded footer and header, and the regions of every logical block
    /// in table order.
    Done { footer: VhdFooter, header: DynamicDiskHeader, blocks: Vec<BlockRegions> },
}

/// An `InspectionReport` over the models of its parts.
pub enum ReportModel {
    Rejected(Rejection),
    Done { footer: FooterModel, header: DynamicHeaderModel, blocks: Seq<BlockRegions> },
}

impl View for InspectionReport {
    type V = ReportModel;

    open spec fn view(&self) -> ReportModel {
        match *self {
            InspectionReport::Rejected(rejection) => ReportModel::Rejected(rejection),
            InspectionReport::Done { footer, header, blocks } => ReportModel::Done {
                footer: footer@,
                header: header@,
                blocks: blocks@,
            },
        }
    }
}

/// The model of the result of an inspection.
pub open spec fn result_model(result: Result<InspectionReport, DecodeError>) -> Result<
    ReportModel,
    DecodeError,
> {
    match result {
        Ok(report) => Ok(report@),
        Err(error) => Err(error),
    }
}

/// The request to read `len` bytes at byte offset `offset` of the source.
#[derive(Debug, Clone, Copy, PartialEq, Eq, Structural)]
pub struct ReadRequest {
    pub offset: u64,
    pub len: u64,
}

/// Where an inspection stands. Each state but the last asks for one read, and
/// the answer decides the next state.
#[derive(Debug, PartialEq, Eq)]
pub enum InspectState {
    /// Nothing was read yet: the footer is wanted.
    ReadFooter,
    /// The footer was accepted: the dynamic disk header is wanted.
    ReadDynamicHeader { footer: VhdFooter },
    /// The header was accepted: the block allocation table is wanted.
    ReadTable { footer: VhdFooter, header: DynamicDiskHeader },
    /// The inspection is over, with this result.
    Finished(Result<InspectionReport, DecodeError>),
}

/// An `InspectState` over the models of its parts.
pub enum StateModel {
    ReadFooter,
    ReadDynamicHeader { footer: FooterModel },
    ReadTable { footer: FooterModel, header: DynamicHeaderModel },
    Finished(Result<ReportModel, DecodeError>),
}

impl View for InspectState {
    type V = StateModel;

    open spec fn view(&self) -> StateModel {
        match *self {
            InspectState::ReadFooter => StateModel::ReadFooter,
            InspectState::ReadDynamicHeader { footer } => StateModel::ReadDynamicHeader {
                footer: footer@,
            },
            InspectState::ReadTable { footer, header } => StateModel::ReadTable {
                footer: footer@,
                header: header@,
            },
            InspectState::Finished(result) => StateModel::Finished(result_model(result)),
        }
    }
}

/// The read that `state` asks for: the 512 bytes of the footer at offset 0,
/// the 1024 bytes of the dynamic disk header at offset 512, the whole table
/// at the offset that the header gives; none once the inspection is over.
pub open spec fn request_of(state: StateModel) -> Option<ReadRequest> {
    match state {
        StateModel::ReadFooter => Some(ReadRequest { offset: 0, len: 512 }),
        StateModel::ReadDynamicHeader { footer } => Some(ReadRequest { offset: 512, len: 1024 }),
        StateModel::ReadTable { footer, header } => Some(
            ReadRequest {
                offset: header.block_table_offset,
                len: (4 * header.max_block_entries) as u64,
            },
        ),
        StateModel::Finished(result) => None,
    }
}

/// The state that follows the answer to the footer read.
pub open spec fn after_footer(outcome: OutcomeModel) -> StateModel {
    match outcome {
        OutcomeModel::Data(bytes) => if bytes.len() >= 512 && footer_of(bytes).signature
            == footer_magic() {
            StateModel::ReadDynamicHeader { footer: footer_of(bytes) }
        } else {
            StateModel::Finished(Ok(ReportModel::Rejected(Rejection::FooterInvalid)))
        },
        OutcomeModel::ShortRead => StateModel::Finished(Err(DecodeError::IoError)),
        OutcomeModel::Failed => StateModel::Finished(Err(DecodeError::IoError)),
    }
}

/// The state that follows the answer to the dynamic disk header read.
pub open spec fn after_dynamic_header(footer: FooterModel, outcome: OutcomeModel) -> StateModel {
    match outcome {
        OutcomeModel::Data(bytes) => if bytes.len() >= 1024 && dynamic_header_of(bytes).signature
            == dynamic_header_magic() {
            StateModel::ReadTable { footer, header: dynamic_header_of(bytes) }
        } else {
            StateModel::Finished(Ok(ReportModel::Rejected(Rejection::DynamicHeaderInvalid)))
        },
        OutcomeModel::ShortRead => StateModel::Finished(Err(DecodeError::IoError)),
        OutcomeModel::Failed => StateModel::Finished(Err(DecodeError::IoError)),
    }
}

/// The result of an inspection whose table region holds `bytes`: the table
/// must be complete, and every entry must translate.
pub open spec fn table_result(footer: FooterModel, header: DynamicHeaderModel, bytes: Seq<u8>)
    -> Result<ReportModel, DecodeError> {
    if !table_fits(bytes.len() as int, 0, header.max_block_entries as int) {
        Err(DecodeError::TruncatedTable)
    } else {
        match table_translation_of(
            table_entries(bytes, 0, header.max_block_entries as int),
            header.block_size,
        ) {
            Ok(blocks) => Ok(ReportModel::Done { footer, header, blocks }),
            Err(error) => Err(error),
        }
    }
}

/// The state that follows the answer to the table read.
pub open spec fn after_table(footer: FooterModel, header: DynamicHeaderModel, outcome: OutcomeModel)
    -> StateModel {
    match outcome {
        OutcomeModel::Data(bytes) => StateModel::Finished(table_result(footer, header, bytes)),
        OutcomeModel::ShortRead => StateModel::Finished(Err(DecodeError::TruncatedTable)),
        OutcomeModel::Failed => StateModel::Finished(Err(DecodeError::IoError)),
    }
}

/// The state that follows `state` when the source answers its request with
/// `outcome`. A finished inspection stays as it is.
pub open spec fn next_state(state: StateModel, outcome: OutcomeModel) -> StateModel {
    match state {
        StateModel::ReadFooter => after_footer(outcome),
        StateModel::ReadDynamicHeader { footer } => after_dynamic_header(footer, outcome),
        StateModel::ReadTable { footer, header } => after_table(footer, header, outcome),
        StateModel::Finished(result) => state,
    }
}

/// The number of reads that an inspection in `state` may still ask for.
pub open spec fn reads_left(state: StateModel) -> nat {
    match state {
        StateModel::ReadFooter => 3,
        StateModel::ReadDynamicHeader { footer } => 2,
        StateModel::ReadTable { footer, header } => 1,
        StateModel::Finished(result) => 0,
    }
}

impl InspectState {
    /// The state in which every inspection starts.
    pub fn start() -> (state: InspectState)
        ensures
            state@ == StateModel::ReadFooter,
    {
        InspectState::ReadFooter
    }

    /// The read that this state asks for, if the inspection is not over.
    pub fn request(&self) -> (request: Option<ReadRequest>)
        ensures
            request == request_of(self@),
    {
        match self {
            InspectState::ReadFooter => Some(ReadRequest { offset: 0, len: 512 }),
            InspectState::ReadDynamicHeader { footer } => Some(
                ReadRequest { offset: 512, len: 1024 },
            ),
            InspectState::ReadTable { footer, header } => Some(
                ReadRequest {
                    offset: header.block_table_offset(),
                    len: 4 * (header.max_block_entries() as u64),
                },
            ),
            InspectState::Finished(result) => None,
        }
    }

    /// Decides the next state from the answer to this state's request.
    pub fn step(self, outcome: ReadOutcome) -> (next: InspectState)
        ensures
            next@ == next_state(self@, outcome@),
    {
        match self {
            InspectState::ReadFooter => decide_footer(outcome),
            InspectState::ReadDynamicHeader { footer } => decide_dynamic_header(footer, outcome),
            InspectState::ReadTable { footer, header } => decide_table(footer, header, outcome),
            InspectState::Finished(result) => InspectState::Finished(result),
        }
    }
}

/// Decodes and checks the footer that was read.
fn decide_footer(outcome: ReadOutcome) -> (next: InspectState)
    ensures
        next@ == after_footer(outcome@),
{
    match outcome {
        ReadOutcome::Data(bytes) => match VhdFooter::parse(bytes.as_slice()) {
            Err(error) => InspectState::Finished(
                Ok(InspectionReport::Rejected(Rejection::FooterInvalid)),
            ),
            Ok(footer) => match footer.check_signature() {
                Err(error) => InspectState::Finished(
                    Ok(InspectionReport::Rejected(Rejection::FooterInvalid)),
                ),
                Ok(checked) => InspectState::ReadDynamicHeader { footer },
            },
        },
        ReadOutcome::ShortRead => InspectState::Finished(Err(DecodeError::IoError)),
        ReadOutcome::Failed => InspectState::Finished(Err(DecodeError::IoError)),
    }
}

/// Decodes and checks the dynamic disk header that was read.
fn decide_dynamic_header(footer: VhdFooter, outcome: ReadOutcome) -> (next: InspectState)
    ensures
        next@ == after_dynamic_header(footer@, outcome@),
{
    match outcome {
        ReadOutcome::Data(bytes) => match DynamicDiskHeader::parse(bytes.as_slice()) {
            Err(error) => InspectState::Finished(
                Ok(InspectionReport::Rejected(Rejection::DynamicHeaderInvalid)),
            ),
            Ok(header) => match header.check_signature() {
                Err(error) => InspectState::Finished(
                    Ok(InspectionReport::Rejected(Rejection::DynamicHeaderInvalid)),
                ),
                Ok(checked) => InspectState::ReadTable { footer, header },
            },
        },
        ReadOutcome::ShortRead => InspectState::Finished(Err(DecodeError::IoError)),
        ReadOutcome::Failed => InspectState::Finished(Err(DecodeError::IoError)),
    }
}

/// Decodes the table that was read and translates each of its entries.
fn decide_table(footer: VhdFooter, header: DynamicDiskHeader, outcome: ReadOutcome) -> (next:
    InspectState)
    ensures
        next@ == after_table(footer@, header@, outcome@),
{
    match outcome {
        ReadOutcome::Data(bytes) => {
            let mut table = ByteSource::new(bytes);
            match read_bat_entries(&mut table, 0, header.max_block_entries() as usize) {
                Err(error) => InspectState::Finished(Err(error)),
                Ok(entries) => match translate_all(entries.as_slice(), header.block_size()) {
                    Err(error) => InspectState::Finished(Err(error)),
                    Ok(blocks) => InspectState::Finished(
                        Ok(InspectionReport::Done { footer, header, blocks }),
                    ),
                },
            }
        },
        ReadOutcome::ShortRead => InspectState::Finished(Err(DecodeError::TruncatedTable)),
        ReadOutcome::Failed => InspectState::Finished(Err(DecodeError::IoError)),
    }
}

/// The result of inspecting a source that holds `image`. A source too short
/// for the footer or for the dynamic disk header is a failed read; a footer
/// or header without its magic is a rejection; the table must lie within the
/// image, and each of its entries must translate.
pub open spec fn inspection_of(image: Seq<u8>) -> Result<ReportModel, DecodeError> {
    if image.len() < 512 {
        Err(DecodeError::IoError)
    } else if footer_of(image).signature != footer_magic() {
        Ok(ReportModel::Rejected(Rejection::FooterInvalid))
    } else if image.len() < 1536 {
        Err(DecodeError::IoError)
    } else {
        let header = dynamic_header_of(image.subrange(512, 1536));
        if header.signature != dynamic_header_magic() {
            Ok(ReportModel::Rejected(Rejection::DynamicHeaderInvalid))
        } else if !table_fits(
            image.len() as int,
            header.block_table_offset as int,
            header.max_block_entries as int,
        ) {
            Err(DecodeError::TruncatedTable)
        } else {
            match table_translation_of(
                table_entries(
                    image,
                    header.block_table_offset as int,
                    header.max_block_entries as int,
                ),
                header.block_size,
            ) {
                Ok(blocks) => Ok(ReportModel::Done { footer: footer_of(image), header, blocks }),
                Err(error) => Err(error),
            }
        }
    }
}

/// What a source that holds `image` answers to `request`.
pub open spec fn answer_of(image: Seq<u8>, request: ReadRequest) -> OutcomeModel {
    served(image, request.offset as int, request.len as int)
}

/// Whether `state` is one that the inspection of `image` passes through.
pub open spec fn on_course(state: StateModel, image: Seq<u8>) -> bool {
    match state {
        StateModel::ReadFooter => true,
        StateModel::ReadDynamicHeader { footer } => {
            &&& image.len() >= 512
            &&& footer == footer_of(image)
            &&& footer.signature == footer_magic()
        },
        StateModel::ReadTable { footer, header } => {
            &&& image.len() >= 1536
            &&& footer == footer_of(image)
            &&& footer.signature == footer_magic()
            &&& header == dynamic_header_of(image.subrange(512, 1536))
            &&& header.signature == dynamic_header_magic()
        },
        StateModel::Finished(result) => result == inspection_of(image),
    }
}

/// A state of the inspection of `image`, stepped with the image's answer to
/// its request, is again a state of that inspection.
pub proof fn lemma_step_stays_on_course(state: StateModel, image: Seq<u8>)
    requires
        on_course(state, image),
        request_of(state) is Some,
    ensures
        on_course(next_state(state, answer_of(image, request_of(state)->0)), image),
{
    match state {
        StateModel::ReadFooter => {
            if image.len() >= 512 {
                lemma_footer_of_prefix(window(image, 0, 512), image);
            }
        },
        StateModel::ReadDynamicHeader { footer } => {
            if image.len() >= 1536 {
                assert(window(image, 512, 1024) =~= image.subrange(512, 1536));
            }
        },
        StateModel::ReadTable { footer, header } => {
            let offset = header.block_table_offset as int;
            let count = header.max_block_entries as int;
            if table_fits(image.len() as int, offset, count) {
                let bytes = window(image, offset, 4 * count);
                assert(table_entries(bytes, 0, count) =~= table_entries(image, offset, count));
            }
        },
        StateModel::Finished(result) => {},
    }
}

/// Every step uses up one of the reads that are left: the inspection moves
/// forward only, and is over after at most three reads.
pub proof fn lemma_step_moves_forward(state: StateModel, outcome: OutcomeModel)
    requires
        request_of(state) is Some,
    ensures
        reads_left(next_state(state, outcome)) < reads_left(state),
{
}

/// The state that follows `state` when a source that holds `image` answers
/// its request. A finished inspection stays as it is.
pub open spec fn driven(state: StateModel, image: Seq<u8>) -> StateModel {
    match request_of(state) {
        Some(request) => next_state(state, answer_of(image, request)),
        None => state,
    }
}

/// Driven by a source that holds `image`, every inspection is finished after
/// three reads at most, and with the result that `inspection_of` gives for
/// the image.
pub proof fn lemma_three_reads_finish(image: Seq<u8>)
    ensures
        driven(driven(driven(StateModel::ReadFooter, image), image), image)
            == StateModel::Finished(inspection_of(image)),
{
    let first = driven(StateModel::ReadFooter, image);
    lemma_step_stays_on_course(StateModel::ReadFooter, image);
    lemma_step_moves_forward(
        StateModel::ReadFooter,
        answer_of(image, request_of(StateModel::ReadFooter)->0),
    );
    let second = driven(first, image);
    if request_of(first) is Some {
        lemma_step_stays_on_course(first, image);
        lemma_step_moves_forward(first, answer_of(image, request_of(first)->0));
    }
    let third = driven(second, image);
    if request_of(second) is Some {
        lemma_step_stays_on_course(second, image);
        lemma_step_moves_forward(second, answer_of(image, request_of(second)->0));
    }
    assert(reads_left(third) == 0);
}

/// A footer without the footer magic ends the inspection at once: the source
/// is rejected and no further read is asked for.
pub proof fn lemma_bad_footer_ends_inspection(bytes: Seq<u8>)
    requires
        bytes.len() >= 512,
        footer_of(bytes).signature != footer_magic(),
    ensures
        next_state(StateModel::ReadFooter, OutcomeModel::Data(bytes)) == StateModel::Finished(
            Ok(ReportModel::Rejected(Rejection::FooterInvalid)),
        ),
        request_of(next_state(StateModel::ReadFooter, OutcomeModel::Data(bytes))) is None,
{
}

/// Inspects the image that `source` holds: reads and checks the footer, then
/// the dynamic disk header, then reads the block allocation table and
/// translates each of its entries.
pub fn inspect(source: &ByteSource) -> (result: Result<InspectionReport, DecodeError>)
    ensures
        result_model(result) == inspection_of(source.bytes()),
        StateModel::Finished(result_model(result)) == driven(
            driven(driven(StateModel::ReadFooter, source.bytes()), source.bytes()),
            source.bytes(),
        ),
{
    let mut state = InspectState::start();
    loop
        invariant
            on_course(state@, source.bytes()),
        decreases reads_left(state@),
    {
        state = match state {
            InspectState::Finished(result) => {
                proof {
                    lemma_three_reads_finish(source.bytes());
                }
                return result;
            },
            pending => match pending.request() {
                None => unreached(),
                Some(request) => {
                    proof {
                        lemma_step_stays_on_course(pending@, source.bytes());
                        lemma_step_moves_forward(pending@, answer_of(source.bytes(), request));
                    }
                    pending.step(source.read_at(request.offset, request.len))
                },
            },
        };
    }
}

} // verus!
