//! What an ingestion keeps from one step to the next.

use super::capture::EvidenceEventData;
use super::ingestion;
use super::ingestion::{IngestionData, IngestionReply, StepData};
use super::mono;
use super::remarks;
use super::request::BuildRequestData;
use crate::sorting::PathItem;
use crate::source::ByteSource;
use vstd::prelude::*;

verus! {

/// The phases of an ingestion: preparation, placements, the listing, modules, the remark directory,
/// remark files, and the end.
pub open spec fn phase(step: StepData) -> int {
    match step {
        StepData::Requiring => 0,
        StepData::Opening => 0,
        StepData::Placements(..) => 1,
        StepData::Listing => 2,
        StepData::Disassembling(..) => 3,
        StepData::OpeningText(_) => 3,
        StepData::Scanning(..) => 3,
        StepData::Removing(..) => 3,
        StepData::Walking(..) => 4,
        StepData::Measuring(..) => 4,
        StepData::StartingFile(_) => 5,
        StepData::OpeningFile(_) => 5,
        StepData::Reading(..) => 5,
        StepData::Done => 6,
    }
}

/// The phase to which an event belongs.
pub open spec fn event_phase(event: EvidenceEventData) -> int {
    match event {
        EvidenceEventData::Placement(_) => 1,
        EvidenceEventData::ModuleStarted(_) => 3,
        EvidenceEventData::Symbol(_) => 3,
        EvidenceEventData::RemarkFileStarted(_) => 5,
        EvidenceEventData::Remark(_) => 5,
    }
}

/// The module or the remark file that a step is about.
pub open spec fn position(step: StepData) -> int {
    match step {
        StepData::Disassembling(index, _) => index,
        StepData::OpeningText(index) => index,
        StepData::Scanning(index, _) => index,
        StepData::Removing(index, _) => index,
        StepData::StartingFile(index) => index,
        StepData::OpeningFile(index) => index,
        StepData::Reading(index, _, _) => index,
        _ => 0,
    }
}

/// An ingestion never returns to an earlier phase, and every event belongs to the phase in which it
/// is reported. So all placements come before all modules, and all modules before all remarks.
pub proof fn phases_follow_each_other<R: ByteSource>(
    request: BuildRequestData,
    data: IngestionData,
    reply: IngestionReply<R>,
    modules: Seq<PathItem>,
    files: Seq<PathItem>,
)
    ensures
        ingestion::ingestion_after(request, data, reply, modules, files) matches Ok((next, event))
            ==> {
            &&& phase(data.step) <= phase(next.step)
            &&& event matches Some(event) ==> event_phase(event) == phase(data.step)
        },
{
}

/// The modules are reached only behind the end of the manifest.
pub proof fn modules_wait_for_the_manifest<R: ByteSource>(
    request: BuildRequestData,
    data: IngestionData,
    reply: IngestionReply<R>,
    modules: Seq<PathItem>,
    files: Seq<PathItem>,
)
    requires
        phase(data.step) <= 1,
    ensures
        ingestion::ingestion_after(request, data, reply, modules, files) matches Ok((next, event))
            ==> phase(next.step) > 1 ==> {
            &&& next.step is Listing
            &&& data.step matches StepData::Placements(input, count)
            &&& mono::record(input, count) matches Ok((None, _))
        },
{
}

/// The modules are read one after the other in their order, each up to the removal of its text, and
/// none is left out.
pub proof fn modules_are_read_in_order<R: ByteSource>(
    request: BuildRequestData,
    data: IngestionData,
    reply: IngestionReply<R>,
    modules: Seq<PathItem>,
    files: Seq<PathItem>,
)
    requires
        2 <= phase(data.step) <= 3,
        ingestion::arranged(data, reply, modules, files),
    ensures
        ingestion::ingestion_after(request, data, reply, modules, files) matches Ok((next, event))
            ==> {
            &&& data.step is Listing && phase(next.step) == 3 ==> position(next.step) == 0
            &&& data.step is Listing && phase(next.step) > 3 ==> next.modules.len() == 0
            &&& phase(data.step) == 3 ==> next.modules == data.modules
            &&& phase(data.step) == 3 && phase(next.step) == 3 ==> {
                ||| position(next.step) == position(data.step)
                ||| data.step is Removing && position(next.step) == position(data.step) + 1
            }
            &&& phase(data.step) == 3 && phase(next.step) > 3 ==> data.step is Removing
                && position(data.step) + 1 >= data.modules.len()
        },
{
}

/// Without a request for remarks the end follows the modules.
pub proof fn remarks_are_read_on_request<R: ByteSource>(
    request: BuildRequestData,
    data: IngestionData,
    reply: IngestionReply<R>,
    modules: Seq<PathItem>,
    files: Seq<PathItem>,
)
    requires
        phase(data.step) <= 3,
    ensures
        ingestion::ingestion_after(request, data, reply, modules, files) matches Ok((next, event))
            ==> phase(next.step) > 3 ==> if request.capture_remarks {
            next.step is Walking
        } else {
            next.step is Done
        },
{
}

/// The remark files are read one after the other in their order, each up to its end, and none is
/// left out.
pub proof fn remark_files_are_read_in_order<R: ByteSource>(
    request: BuildRequestData,
    data: IngestionData,
    reply: IngestionReply<R>,
    modules: Seq<PathItem>,
    files: Seq<PathItem>,
)
    requires
        4 <= phase(data.step) <= 5,
        ingestion::arranged(data, reply, modules, files),
    ensures
        ingestion::ingestion_after(request, data, reply, modules, files) matches Ok((next, event))
            ==> {
            &&& phase(data.step) == 4 && phase(next.step) == 5 ==> position(next.step) == 0
            &&& phase(data.step) == 4 && phase(next.step) == 6 ==> next.files.len() == 0
            &&& phase(data.step) == 5 ==> next.files == data.files
            &&& phase(data.step) == 5 && phase(next.step) == 5 ==> {
                ||| position(next.step) == position(data.step)
                ||| data.step is Reading && event is None && position(next.step) == position(
                    data.step,
                ) + 1
            }
            &&& phase(data.step) == 5 && phase(next.step) == 6 ==> data.step is Reading
                && position(data.step) + 1 >= data.files.len()
        },
{
}

/// A remark file is started before it is opened, so its start is reported whatever its contents
/// are, and each remark is reported as soon as its document was read.
pub proof fn remark_files_start_before_they_are_read<R: ByteSource>(
    request: BuildRequestData,
    data: IngestionData,
    reply: IngestionReply<R>,
    modules: Seq<PathItem>,
    files: Seq<PathItem>,
)
    ensures
        ingestion::ingestion_after(request, data, reply, modules, files) matches Ok((next, event))
            ==> {
            &&& next.step is OpeningFile && !(data.step is OpeningFile) ==> data.step
                is StartingFile && event is Some && event->Some_0 is RemarkFileStarted
            &&& next.step is Reading && !(data.step is Reading) ==> data.step is OpeningFile
            &&& event is Some && event->Some_0 is Remark ==> data.step is Reading && next.step
                is Reading && next.total == remarks::plus_one(data.total)
        },
{
}

/// Behind the opened manifest the metadata names the request and the compiler command, and every
/// later step keeps the metadata.
pub proof fn metadata_is_complete<R: ByteSource>(
    request: BuildRequestData,
    data: IngestionData,
    reply: IngestionReply<R>,
    modules: Seq<PathItem>,
    files: Seq<PathItem>,
)
    ensures
        ingestion::ingestion_after(request, data, reply, modules, files) matches Ok((next, event))
            ==> {
            &&& next.compilation.toolchain == data.compilation.toolchain
            &&& phase(data.step) == 0 && phase(next.step) > 0 ==> {
                &&& next.compilation.invocation.request == request
                &&& next.compilation.invocation.rustc is Some
                &&& next.compilation.invocation.cargo == data.compilation.invocation.cargo
            }
            &&& phase(data.step) > 0 ==> next.compilation == data.compilation
        },
{
}

} // verus!
