use vstd::prelude::*;

use crate::overview::{overview_line, overview_body, section_lines, section_of, services_listing, Section};
use crate::service::{info_with_status, ServiceInfo};
use crate::service_manager::{
    attachment_step, detach_result, fail_completion_step, health_of, start_completion_step,
    stop_completion_step, task_end_message, ManagerState,
};
use crate::text::{join_lines, lex_compare, longest_line_bytes, utf8_len, utf8_width};
use crate::types::{
    Health, Priority, RunTaskError, ShutdownError, StartupError, Status, same_variant,
};
use lum_event::event_repeater::{AttachError, DetachError};

verus! {

/// Two statuses are equal exactly when they are of the same variant: statuses of
/// different variants are never equal, whatever messages they carry, and statuses
/// of the same variant always are.
pub proof fn law_status_equality_is_variant_equality(a: Status, b: Status)
    ensures
        same_variant(a, b) ==> {
            &&& (a is Starting <==> b is Starting)
            &&& (a is Started <==> b is Started)
            &&& (a is Stopping <==> b is Stopping)
            &&& (a is Stopped <==> b is Stopped)
            &&& (a is FailedToStart <==> b is FailedToStart)
            &&& (a is FailedToStop <==> b is FailedToStop)
            &&& (a is Failing <==> b is Failing)
            &&& (a is RuntimeError <==> b is RuntimeError)
        },
        (a is Starting && b is Starting) || (a is Started && b is Started) || (a is Stopping
            && b is Stopping) || (a is Stopped && b is Stopped) || (a is FailedToStart
            && b is FailedToStart) || (a is FailedToStop && b is FailedToStop) || (a is Failing
            && b is Failing) || (a is RuntimeError && b is RuntimeError) ==> same_variant(a, b),
{
}

/// A status change to another variant always takes effect, with the new status's
/// message; a change to the current variant keeps the service as it is.
pub proof fn law_status_change(info: ServiceInfo, status: Status)
    ensures
        !same_variant(info.status, status) ==> info_with_status(info, status).status == status,
        same_variant(info.status, status) ==> info_with_status(info, status) == info,
        info_with_status(info, status).name == info.name,
        info_with_status(info, status).type_label == info.type_label,
        info_with_status(info, status).type_id == info.type_id,
        info_with_status(info, status).priority == info.priority,
{
}

/// The overview section of a service: running or stopped services by their
/// priority, services that failed to start or stop or met a runtime error among the
/// failed ones by their priority, and all others (starting, stopping, failing)
/// under "other".
pub proof fn law_overview_section(info: ServiceInfo)
    ensures
        (info.status is Started || info.status is Stopped) ==> {
            &&& (section_of(info) == Section::Essential <==> info.priority == Priority::Essential)
            &&& (section_of(info) == Section::Optional <==> info.priority == Priority::Optional)
        },
        (info.status is FailedToStart || info.status is FailedToStop
            || info.status is RuntimeError) ==> {
            &&& (section_of(info) == Section::FailedEssential <==> info.priority
                == Priority::Essential)
            &&& (section_of(info) == Section::FailedOptional <==> info.priority
                == Priority::Optional)
        },
        (info.status is Starting || info.status is Stopping || info.status is Failing) ==> section_of(
            info,
        ) == Section::Other,
{
}

/// Every service is listed in exactly one section: the sections together hold as
/// many lines as there are services.
pub proof fn law_overview_lists_each_service_once(s: Seq<ServiceInfo>)
    ensures
        section_lines(s, Section::FailedEssential).len() + section_lines(
            s,
            Section::FailedOptional,
        ).len() + section_lines(s, Section::Essential).len() + section_lines(
            s,
            Section::Optional,
        ).len() + section_lines(s, Section::Other).len() == s.len(),
    decreases s.len(),
{
    if s.len() > 0 {
        law_overview_lists_each_service_once(s.drop_last());
    }
}

/// The overview of a single running or stopped service: its section header chosen
/// by its priority, then the line `" - <name>: <status>"`.
pub proof fn law_overview_of_one_service(info: ServiceInfo)
    requires
        info.status is Started,
    ensures
        info.priority == Priority::Optional ==> overview_body(seq![info]) == "Optional services:\n"@
            + " - "@ + info.name@ + ": "@ + "Started"@,
        info.priority == Priority::Essential ==> overview_body(seq![info])
            == "Essential services:\n"@ + " - "@ + info.name@ + ": "@ + "Started"@,
{
    let s = seq![info];
    assert(s.drop_last() =~= Seq::<ServiceInfo>::empty());
    assert(s.last() == info);
    let line = " - "@ + info.name@ + ": "@ + "Started"@;
    assert(overview_line(info) == line);
    assert(section_lines(s.drop_last(), Section::Optional) =~= Seq::<Seq<char>>::empty());
    assert(section_lines(s.drop_last(), Section::Essential) =~= Seq::<Seq<char>>::empty());
    assert(section_lines(s.drop_last(), Section::FailedEssential) =~= Seq::<Seq<char>>::empty());
    assert(section_lines(s.drop_last(), Section::FailedOptional) =~= Seq::<Seq<char>>::empty());
    assert(section_lines(s.drop_last(), Section::Other) =~= Seq::<Seq<char>>::empty());
    if info.priority == Priority::Optional {
        assert(section_lines(s, Section::Optional) =~= seq![line]);
        assert(section_lines(s, Section::Essential) =~= Seq::<Seq<char>>::empty());
        assert(section_lines(s, Section::FailedEssential) =~= Seq::<Seq<char>>::empty());
        assert(section_lines(s, Section::FailedOptional) =~= Seq::<Seq<char>>::empty());
        assert(section_lines(s, Section::Other) =~= Seq::<Seq<char>>::empty());
        assert(overview_body(s) =~= "Optional services:\n"@ + line);
    } else {
        assert(section_lines(s, Section::Essential) =~= seq![line]);
        assert(section_lines(s, Section::Optional) =~= Seq::<Seq<char>>::empty());
        assert(section_lines(s, Section::FailedEssential) =~= Seq::<Seq<char>>::empty());
        assert(section_lines(s, Section::FailedOptional) =~= Seq::<Seq<char>>::empty());
        assert(section_lines(s, Section::Other) =~= Seq::<Seq<char>>::empty());
        assert(overview_body(s) =~= "Essential services:\n"@ + line);
    }
}

/// Health looks at essential services only: healthy when every essential service
/// is started, whatever the optional services' statuses; unhealthy as soon as one
/// essential service is not started.
pub proof fn law_health_depends_on_essential_services_only(s: Seq<ServiceInfo>)
    ensures
        (forall|i: int|
            0 <= i < s.len() && (#[trigger] s[i]).priority == Priority::Essential ==> s[i].status is Started)
            ==> health_of(s) == Health::Healthy,
        (exists|i: int|
            0 <= i < s.len() && (#[trigger] s[i]).priority == Priority::Essential && !(
            s[i].status is Started)) ==> health_of(s) == Health::Unhealthy,
{
}

/// Replacing an optional service by another optional service, whatever either's
/// status, does not change the health.
pub proof fn law_health_ignores_optional_services(s: Seq<ServiceInfo>, i: int, other: ServiceInfo)
    requires
        0 <= i < s.len(),
        s[i].priority == Priority::Optional,
        other.priority == Priority::Optional,
    ensures
        health_of(s.update(i, other)) == health_of(s),
{
    let t = s.update(i, other);
    law_health_depends_on_essential_services_only(s);
    law_health_depends_on_essential_services_only(t);
    if exists|k: int|
        0 <= k < s.len() && (#[trigger] s[k]).priority == Priority::Essential && !(
        s[k].status is Started) {
        let k = choose|k: int|
            0 <= k < s.len() && (#[trigger] s[k]).priority == Priority::Essential && !(
            s[k].status is Started);
        assert(t[k] == s[k]);
    }
    if exists|k: int|
        0 <= k < t.len() && (#[trigger] t[k]).priority == Priority::Essential && !(
        t[k].status is Started) {
        let k = choose|k: int|
            0 <= k < t.len() && (#[trigger] t[k]).priority == Priority::Essential && !(
            t[k].status is Started);
        assert(t[k] == s[k]);
    }
}

/// A start is accepted exactly for a managed, stopped service of a type without
/// recorded background tasks; otherwise it is refused, naming the given service, for
/// the first of these that fails. An accepted start with a successful attachment
/// makes the service `Starting`; a failed attachment leaves it as it was.
pub proof fn law_start_acceptance(
    st: ManagerState,
    s: ServiceInfo,
    attachment: Result<(), AttachError>,
)
    ensures
        st.start_refusal(s) is None <==> (st.manages(s.type_id) && s.status is Stopped
            && !st.tasks.contains_key(s.type_id)),
        !st.manages(s.type_id) ==> st.start_refusal(s) == Some(
            StartupError::ServiceNotManaged(s.name, s.type_label),
        ),
        st.manages(s.type_id) && !(s.status is Stopped) ==> st.start_refusal(s) == Some(
            StartupError::ServiceNotStopped(s.name, s.type_label),
        ),
        st.manages(s.type_id) && s.status is Stopped && st.tasks.contains_key(s.type_id)
            ==> st.start_refusal(s) == Some(
            StartupError::BackgroundTaskAlreadyRunning(s.name, s.type_label),
        ),
        st.start_refusal(s) is None && attachment is Ok ==> st.start_step(s, attachment).0.status
            is Starting && st.start_step(s, attachment).1 is Ok,
        st.start_refusal(s) is None ==> (attachment matches Err(e) ==> st.start_step(s, attachment)
            == (s, Err::<(), StartupError>(StartupError::StatusAttachmentFailed(s.name, s.type_label, e)))),
        st.start_refusal(s) matches Some(e) ==> st.start_step(s, attachment) == (
            s,
            Err::<(), StartupError>(e),
        ),
        attachment matches Err(e) ==> attachment_step(s, attachment) == (
            s,
            Err::<(), StartupError>(StartupError::StatusAttachmentFailed(s.name, s.type_label, e)),
        ),
{
}

/// A stop is accepted exactly for a managed, started service; for a managed service
/// in any other status it is refused as not started, and an unmanaged one as not
/// managed, with the service and the manager unchanged. An accepted stop makes the
/// service `Stopping` and drops all of its type's background tasks, reporting how
/// many there were.
pub proof fn law_stop_acceptance(st: ManagerState, s: ServiceInfo)
    ensures
        st.stop_step(s).2 is Ok <==> (st.manages(s.type_id) && s.status is Started),
        st.manages(s.type_id) && !(s.status is Started) ==> st.stop_step(s) == (
            st,
            s,
            Err::<nat, ShutdownError>(ShutdownError::ServiceNotStarted(s.name, s.type_label)),
        ),
        !st.manages(s.type_id) ==> st.stop_step(s) == (
            st,
            s,
            Err::<nat, ShutdownError>(ShutdownError::ServiceNotManaged(s.name, s.type_label)),
        ),
        st.manages(s.type_id) && s.status is Started ==> {
            &&& st.stop_step(s).1.status is Stopping
            &&& st.stop_step(s).0.task_count(s.type_id) == 0
            &&& st.stop_step(s).0.types == st.types
            &&& st.stop_step(s).2 == Ok::<nat, ShutdownError>(st.task_count(s.type_id))
        },
{
}

/// A background task is accepted exactly while the service is starting or started;
/// in any other status it is refused as not started, naming the service, and
/// nothing is recorded.
pub proof fn law_run_task_acceptance(st: ManagerState, s: ServiceInfo)
    ensures
        st.run_task_step(s).1 is Ok <==> (s.status is Starting || s.status is Started),
        !(s.status is Starting || s.status is Started) ==> st.run_task_step(s) == (
            st,
            Err::<(), RunTaskError>(RunTaskError::ServiceNotStarted(s.name, s.type_label)),
        ),
        (s.status is Starting || s.status is Started) ==> st.run_task_step(s).0.tasks.contains_key(
            s.type_id,
        ) && st.run_task_step(s).0.types == st.types,
{
}

/// The end of a start, a stop or a failure: success leaves the service `Started`
/// (or `Stopped`); failure leaves it failed to start (or to stop) with the given
/// message when it was not already in that variant, and names the service in the
/// error; a failure always ends in a runtime error with the given message when the
/// service was `Failing`.
pub proof fn law_completions(s: ServiceInfo, message: String)
    ensures
        start_completion_step(s, Ok(())).0.status is Started,
        start_completion_step(s, Ok(())).1 is Ok,
        start_completion_step(s, Err(message)).0.status is FailedToStart,
        !(s.status is FailedToStart) ==> start_completion_step(s, Err(message)).0.status
            == Status::FailedToStart(message),
        start_completion_step(s, Err(message)).1 == Err::<(), StartupError>(
            StartupError::FailedToStartService(s.name, s.type_label),
        ),
        stop_completion_step(s, Ok(())).0.status is Stopped,
        stop_completion_step(s, Ok(())).1 is Ok,
        stop_completion_step(s, Err(message)).0.status is FailedToStop,
        !(s.status is FailedToStop) ==> stop_completion_step(s, Err(message)).0.status
            == Status::FailedToStop(message),
        stop_completion_step(s, Err(message)).1 == Err::<(), ShutdownError>(
            ShutdownError::FailedToStopService(s.name, s.type_label),
        ),
        s.status is Failing ==> fail_completion_step(s, message).status == Status::RuntimeError(
            message,
        ),
        fail_completion_step(s, message).status is RuntimeError,
        task_end_message(Err(message)) == message@,
{
}

/// A successful detachment ends the stop without error; a failed one is reported
/// with the service's name and type and the outside error as it came.
pub proof fn law_detachment(s: ServiceInfo, detachment: Result<(), DetachError>)
    ensures
        detachment is Ok ==> detach_result(s, detachment) is Ok,
        detachment matches Err(e) ==> detach_result(s, detachment) == Err::<(), ShutdownError>(
            ShutdownError::StatusDetachmentFailed(s.name, s.type_label, e),
        ),
{
}

/// A proper prefix sorts first, and otherwise the first differing character
/// decides.
pub proof fn law_text_order(a: Seq<char>, b: Seq<char>, k: int)
    requires
        0 <= k <= a.len(),
        k <= b.len(),
        a.take(k) == b.take(k),
    ensures
        k == a.len() && a.len() < b.len() ==> lex_compare(a, b) == -1,
        k < a.len() && k < b.len() && (a[k] as int) < (b[k] as int) ==> lex_compare(a, b) == -1,
        k < a.len() && k < b.len() && (b[k] as int) < (a[k] as int) ==> lex_compare(a, b) == 1,
    decreases k,
{
    if k > 0 {
        assert(a[0] == a.take(k)[0] && b[0] == b.take(k)[0]);
        assert(a.drop_first().take(k - 1) =~= a.take(k).drop_first());
        assert(b.drop_first().take(k - 1) =~= b.take(k).drop_first());
        law_text_order(a.drop_first(), b.drop_first(), k - 1);
        if k < a.len() && k < b.len() {
            assert(a.drop_first()[k - 1] == a[k]);
            assert(b.drop_first()[k - 1] == b[k]);
        }
    }
}

/// An ASCII text takes one byte per character.
pub proof fn law_ascii_bytes(s: Seq<char>)
    requires
        forall|i: int| 0 <= i < s.len() ==> (s[i] as int) < 0x80,
    ensures
        utf8_len(s) == s.len(),
    decreases s.len(),
{
    if s.len() > 0 {
        law_ascii_bytes(s.drop_last());
    }
}

/// Every character takes between one and four bytes.
pub proof fn law_char_bytes(c: char)
    ensures
        1 <= utf8_width(c) <= 4,
        ((c as int) < 0x80) == (utf8_width(c) == 1),
{
}

/// A text with no line feed is one line, as wide as the text has bytes.
pub proof fn law_longest_line_of_single_line(s: Seq<char>)
    requires
        !s.contains('\n'),
    ensures
        longest_line_bytes(s) == utf8_len(s),
{
    lemma_single_piece(s);
}

proof fn lemma_single_piece(s: Seq<char>)
    requires
        !s.contains('\n'),
    ensures
        crate::text::split_lines(s) == seq![s],
    decreases s.len(),
{
    if s.len() > 0 {
        assert(!s.drop_last().contains('\n')) by {
            if s.drop_last().contains('\n') {
                let i = choose|i: int| 0 <= i < s.drop_last().len() && s.drop_last()[i] == '\n';
                assert(s[i] == '\n');
            }
        }
        lemma_single_piece(s.drop_last());
        assert(s.last() != '\n') by {
            assert(s[s.len() - 1] == s.last());
        }
        assert(s.drop_last().push(s.last()) =~= s);
        assert(seq![s.drop_last()].update(0, s.drop_last().push(s.last())) =~= seq![s]);
    } else {
        assert(s =~= Seq::<char>::empty());
    }
}

/// Joining keeps every line, in order, with one separator between each two.
pub proof fn law_join_two_lines(a: Seq<char>, b: Seq<char>, sep: Seq<char>)
    ensures
        join_lines(seq![a], sep) == a,
        join_lines(seq![a, b], sep) == a + sep + b,
{
    assert(seq![a, b].drop_last() =~= seq![a]);
}

/// The listing of services names each, in order, after `"Services: "`.
pub proof fn law_listing(a: ServiceInfo, b: ServiceInfo)
    ensures
        services_listing(seq![a]) == "Services: "@ + a.name@,
        services_listing(seq![a, b]) == "Services: "@ + a.name@ + ", "@ + b.name@,
{
    let one = seq![a].map_values(|info: ServiceInfo| info.name@);
    let two = seq![a, b].map_values(|info: ServiceInfo| info.name@);
    assert(one =~= seq![a.name@]);
    assert(two =~= seq![a.name@, b.name@]);
    law_join_two_lines(a.name@, b.name@, ", "@);
}

} // verus!
