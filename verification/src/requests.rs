//! What the window asks for, and what is to be done about it.
//!
//! Every request is answered on the one thread that owns the device, the session and the
//! controller. Which of them a request needs, and what it is told when that is missing, is decided
//! here; carrying it out - opening a device, writing a file, waiting for an answer - is not.
use vstd::prelude::*;
use vstd::string::*;
use crate::logfile::LogFile;
use crate::start::{calibration_error, check_calibration, check_stop, no_engine};
use crate::text::{join, joined, texts};

verus! {

/// One request, without what it carries.
#[derive(Clone, Copy, Debug, PartialEq, Eq, Structural)]
pub enum Request {
    ListDevices,
    Start,
    Stop,
    Act,
    ScoreLoad,
    ScoreAct,
    Calibrate,
    MidiPorts,
    MidiOpen,
    MidiClose,
    /// Arm the learn mode for an address, or cancel it.
    MidiLearn { armed: bool },
    MidiUnbind,
    MidiSave,
    MidiState,
}

/// What is to be done about a request.
#[derive(Debug)]
pub enum Job {
    Survey,
    /// A start with another configuration is a stop plus a start, so that nobody has to send two
    /// requests in the right order.
    Start { stop_first: bool },
    Stop,
    Act,
    LoadScore,
    ActOnScore,
    Calibrate,
    ListPorts,
    OpenPort,
    ClosePort,
    Arm,
    CancelLearn,
    Unbind,
    Save,
    Show,
    /// Nothing but an answer.
    Refuse(String),
}

pub enum JobModel {
    Survey,
    Start { stop_first: bool },
    Stop,
    Act,
    LoadScore,
    ActOnScore,
    Calibrate,
    ListPorts,
    OpenPort,
    ClosePort,
    Arm,
    CancelLearn,
    Unbind,
    Save,
    Show,
    Refuse(Seq<char>),
}

impl View for Job {
    type V = JobModel;

    open spec fn view(&self) -> JobModel {
        match self {
            Job::Survey => JobModel::Survey,
            Job::Start { stop_first } => JobModel::Start { stop_first: *stop_first },
            Job::Stop => JobModel::Stop,
            Job::Act => JobModel::Act,
            Job::LoadScore => JobModel::LoadScore,
            Job::ActOnScore => JobModel::ActOnScore,
            Job::Calibrate => JobModel::Calibrate,
            Job::ListPorts => JobModel::ListPorts,
            Job::OpenPort => JobModel::OpenPort,
            Job::ClosePort => JobModel::ClosePort,
            Job::Arm => JobModel::Arm,
            Job::CancelLearn => JobModel::CancelLearn,
            Job::Unbind => JobModel::Unbind,
            Job::Save => JobModel::Save,
            Job::Show => JobModel::Show,
            Job::Refuse(text) => JobModel::Refuse(text@),
        }
    }
}

/// The sentence for everything that needs a running engine and finds none.
pub open spec fn no_engine_text() -> Seq<char> {
    "Die Engine laeuft nicht. Erst starten."@
}

/// What a request means while an engine is running or not. The devices, the controller and the
/// calibration do without an engine - the calibration insists on it.
pub open spec fn meant(request: Request, running: bool, logging: bool, log: Seq<char>) -> JobModel {
    match request {
        Request::ListDevices => JobModel::Survey,
        Request::Start => JobModel::Start { stop_first: running },
        Request::Stop => if running {
            JobModel::Stop
        } else {
            JobModel::Refuse("Die Engine laeuft nicht."@)
        },
        Request::Act => if running {
            JobModel::Act
        } else {
            JobModel::Refuse(no_engine_text())
        },
        Request::ScoreLoad => if running {
            JobModel::LoadScore
        } else {
            JobModel::Refuse(no_engine_text())
        },
        Request::ScoreAct => if running {
            JobModel::ActOnScore
        } else {
            JobModel::Refuse(no_engine_text())
        },
        Request::Calibrate => match calibration_error(running, logging, log) {
            Some(text) => JobModel::Refuse(text),
            None => JobModel::Calibrate,
        },
        Request::MidiPorts => JobModel::ListPorts,
        Request::MidiOpen => JobModel::OpenPort,
        Request::MidiClose => JobModel::ClosePort,
        Request::MidiLearn { armed } => if armed {
            JobModel::Arm
        } else {
            JobModel::CancelLearn
        },
        Request::MidiUnbind => JobModel::Unbind,
        Request::MidiSave => JobModel::Save,
        Request::MidiState => JobModel::Show,
    }
}

fn with_engine(running: bool, job: Job) -> (r: Job)
    ensures
        r@ == (if running {
            job@
        } else {
            JobModel::Refuse(no_engine_text())
        }),
{
    if running {
        job
    } else {
        Job::Refuse(no_engine())
    }
}

/// Decide about a request.
pub fn handle(request: Request, running: bool, log: &LogFile) -> (r: Job)
    ensures
        r@ == meant(request, running, log.writes(), log.spec_path()),
{
    match request {
        Request::ListDevices => Job::Survey,
        Request::Start => Job::Start { stop_first: running },
        Request::Stop => match check_stop(running) {
            Ok(()) => Job::Stop,
            Err(text) => Job::Refuse(text),
        },
        Request::Act => with_engine(running, Job::Act),
        Request::ScoreLoad => with_engine(running, Job::LoadScore),
        Request::ScoreAct => with_engine(running, Job::ActOnScore),
        Request::Calibrate => match check_calibration(running, log) {
            Ok(()) => Job::Calibrate,
            Err(text) => Job::Refuse(text),
        },
        Request::MidiPorts => Job::ListPorts,
        Request::MidiOpen => Job::OpenPort,
        Request::MidiClose => Job::ClosePort,
        Request::MidiLearn { armed } => if armed {
            Job::Arm
        } else {
            Job::CancelLearn
        },
        Request::MidiUnbind => Job::Unbind,
        Request::MidiSave => Job::Save,
        Request::MidiState => Job::Show,
    }
}

/// The sentence about a score whose own bindings were not taken over.
pub fn bindings_refused(issues: &Vec<String>) -> (r: String)
    ensures
        r@ == "Die MIDI-Bindungen der Partitur wurden nicht uebernommen: "@ + joined(
            texts(issues@),
            " "@,
        ),
{
    let mut r = String::new();
    r.append("Die MIDI-Bindungen der Partitur wurden nicht uebernommen: ");
    r.append(join(issues, " ").as_str());
    assert(r@ =~= "Die MIDI-Bindungen der Partitur wurden nicht uebernommen: "@ + joined(
        texts(issues@),
        " "@,
    ));
    r
}

// ---------------------------------------------------------------------------------------------
// Laws
// ---------------------------------------------------------------------------------------------

/// A measurement never meets a running engine, and nothing that needs an engine is begun without
/// one.
pub proof fn the_device_has_one_owner(request: Request, running: bool, logging: bool, log: Seq<char>)
    ensures
        running ==> !(meant(request, running, logging, log) is Calibrate),
        !running ==> !(meant(request, running, logging, log) is Stop) && !(meant(
            request,
            running,
            logging,
            log,
        ) is Act) && !(meant(request, running, logging, log) is LoadScore) && !(meant(
            request,
            running,
            logging,
            log,
        ) is ActOnScore),
{
}

/// Without an engine, what needs one is answered with the sentence that says so, and a stop with
/// its own.
pub proof fn without_an_engine_the_answer_says_so(logging: bool, log: Seq<char>)
    ensures
        meant(Request::Act, false, logging, log) == JobModel::Refuse(
            "Die Engine laeuft nicht. Erst starten."@,
        ),
        meant(Request::ScoreLoad, false, logging, log) == JobModel::Refuse(
            "Die Engine laeuft nicht. Erst starten."@,
        ),
        meant(Request::ScoreAct, false, logging, log) == JobModel::Refuse(
            "Die Engine laeuft nicht. Erst starten."@,
        ),
        meant(Request::Stop, false, logging, log) == JobModel::Refuse("Die Engine laeuft nicht."@),
{
}

/// A start while an engine runs gives its device back first.
pub proof fn a_restart_stops_first(logging: bool, log: Seq<char>)
    ensures
        meant(Request::Start, true, logging, log) == (JobModel::Start { stop_first: true }),
        meant(Request::Start, false, logging, log) == (JobModel::Start { stop_first: false }),
{
}

/// While an engine runs, it is asked for exactly what was requested, and what needs no engine is
/// done whether one runs or not.
pub proof fn a_request_is_done_as_asked(running: bool, logging: bool, log: Seq<char>)
    ensures
        meant(Request::Stop, true, logging, log) == JobModel::Stop,
        meant(Request::Act, true, logging, log) == JobModel::Act,
        meant(Request::ScoreLoad, true, logging, log) == JobModel::LoadScore,
        meant(Request::ScoreAct, true, logging, log) == JobModel::ActOnScore,
        meant(Request::ListDevices, running, logging, log) == JobModel::Survey,
        meant(Request::MidiPorts, running, logging, log) == JobModel::ListPorts,
        meant(Request::MidiOpen, running, logging, log) == JobModel::OpenPort,
        meant(Request::MidiClose, running, logging, log) == JobModel::ClosePort,
        meant(Request::MidiLearn { armed: true }, running, logging, log) == JobModel::Arm,
        meant(Request::MidiLearn { armed: false }, running, logging, log) == JobModel::CancelLearn,
        meant(Request::MidiUnbind, running, logging, log) == JobModel::Unbind,
        meant(Request::MidiSave, running, logging, log) == JobModel::Save,
        meant(Request::MidiState, running, logging, log) == JobModel::Show,
        meant(Request::Calibrate, false, true, log) == JobModel::Calibrate,
        meant(Request::Calibrate, true, logging, log) is Refuse,
        meant(Request::Calibrate, running, false, log) is Refuse,
{
}

} // verus!
