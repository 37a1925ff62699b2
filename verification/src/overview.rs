use vstd::prelude::*;

use crate::service::ServiceInfo;
use crate::text::{join_lines, longest_line_bytes, longest_line_width};
use crate::types::{Priority, Status, status_text};

verus! {

/// The part of the status overview in which a service is listed.
#[derive(Debug, PartialEq, Eq, Structural, Clone, Copy)]
pub enum Section {
    FailedEssential,
    FailedOptional,
    Essential,
    Optional,
    Other,
}

/// Running or stopped services are listed by priority; services that failed to
/// start or stop, or met a runtime error, are listed as failed by priority; the
/// rest (starting, stopping, failing) are listed as others.
pub open spec fn section_of(info: ServiceInfo) -> Section {
    match info.status {
        Status::Started | Status::Stopped => match info.priority {
            Priority::Essential => Section::Essential,
            Priority::Optional => Section::Optional,
        },
        Status::FailedToStart(_) | Status::FailedToStop(_) | Status::RuntimeError(_) => {
            match info.priority {
                Priority::Essential => Section::FailedEssential,
                Priority::Optional => Section::FailedOptional,
            }
        },
        _ => Section::Other,
    }
}

/// How one service is listed: `" - <name>: <status>"`.
pub open spec fn overview_line(info: ServiceInfo) -> Seq<char> {
    " - "@ + info.name@ + ": "@ + status_text(info.status)
}

/// The lines of the services in `s` that are listed in `section`, in order.
pub open spec fn section_lines(s: Seq<ServiceInfo>, section: Section) -> Seq<Seq<char>>
    decreases s.len(),
{
    if s.len() == 0 {
        Seq::empty()
    } else {
        let before = section_lines(s.drop_last(), section);
        if section_of(s.last()) == section {
            before.push(overview_line(s.last()))
        } else {
            before
        }
    }
}

/// A section: nothing when it has no line, else its header followed by its lines,
/// one per line.
pub open spec fn section_text(header: Seq<char>, lines: Seq<Seq<char>>) -> Seq<char> {
    if lines.len() == 0 {
        Seq::empty()
    } else {
        header + join_lines(lines, "\n"@)
    }
}

/// The sections, one after the other. A section's last line is not ended by a
/// line feed, so the next header continues it.
pub open spec fn overview_body(s: Seq<ServiceInfo>) -> Seq<char> {
    section_text("Failed essential services:\n"@, section_lines(s, Section::FailedEssential))
        + section_text("Failed optional services:\n"@, section_lines(s, Section::FailedOptional))
        + section_text("Essential services:\n"@, section_lines(s, Section::Essential))
        + section_text("Optional services:\n"@, section_lines(s, Section::Optional))
        + section_text("Other services:\n"@, section_lines(s, Section::Other))
}

/// The overview: the headline `"Status overview"`, a rule of `'\u{2500}'` as many
/// characters long as the body's longest line has bytes, then the body.
pub open spec fn overview_text(s: Seq<ServiceInfo>) -> Seq<char> {
    "Status overview\n"@ + Seq::new(longest_line_bytes(overview_body(s)), |i: int| '\u{2500}')
        + "\n"@ + overview_body(s)
}

/// The names of the services, in order.
pub open spec fn service_names(s: Seq<ServiceInfo>) -> Seq<Seq<char>> {
    s.map_values(|info: ServiceInfo| info.name@)
}

/// `"Services: "` followed by `"None"` or by the names separated by `", "`.
pub open spec fn services_listing(s: Seq<ServiceInfo>) -> Seq<char> {
    "Services: "@ + if s.len() == 0 {
        "None"@
    } else {
        join_lines(service_names(s), ", "@)
    }
}

/// The section in which `info` is listed.
pub fn section_for(info: &ServiceInfo) -> (section: Section)
    ensures
        section == section_of(*info),
{
    match info.status {
        Status::Started | Status::Stopped => match info.priority {
            Priority::Essential => Section::Essential,
            Priority::Optional => Section::Optional,
        },
        Status::FailedToStart(_) | Status::FailedToStop(_) | Status::RuntimeError(_) => {
            match info.priority {
                Priority::Essential => Section::FailedEssential,
                Priority::Optional => Section::FailedOptional,
            }
        },
        _ => Section::Other,
    }
}

/// How `info` is listed.
pub fn line_for(info: &ServiceInfo) -> (line: String)
    ensures
        line@ == overview_line(*info),
{
    let mut line = String::from_str(" - ");
    line.append(info.name.as_str());
    line.append(": ");
    let status = info.status.to_string();
    line.append(status.as_str());
    line
}

/// The section `section` of the overview of `services`, under `header`.
pub fn section_for_services(services: &Vec<ServiceInfo>, section: Section, header: &str) -> (text:
    String)
    ensures
        text@ == section_text(header@, section_lines(services@, section)),
{
    let mut joined = String::new();
    let mut count: usize = 0;
    let mut k: usize = 0;
    assert(services@.take(0) =~= Seq::<ServiceInfo>::empty());
    while k < services.len()
        invariant
            k <= services@.len(),
            count <= k,
            count == section_lines(services@.take(k as int), section).len(),
            joined@ == join_lines(section_lines(services@.take(k as int), section), "\n"@),
        decreases services.len() - k,
    {
        let ghost before = section_lines(services@.take(k as int), section);
        assert(services@.take(k + 1).drop_last() =~= services@.take(k as int));
        assert(services@.take(k + 1).last() == services@[k as int]);
        let info = &services[k];
        if section_for(info) == section {
            let line = line_for(info);
            if count > 0 {
                joined.append("\n");
            }
            joined.append(line.as_str());
            count = count + 1;
            proof {
                let after = before.push(overview_line(*info));
                assert(after.drop_last() =~= before);
                if before.len() == 0 {
                    assert(joined@ =~= join_lines(after, "\n"@));
                }
            }
        }
        k = k + 1;
    }
    assert(services@.take(k as int) =~= services@);
    if count == 0 {
        String::new()
    } else {
        let mut text = String::from_str(header);
        text.append(joined.as_str());
        text
    }
}

/// The status overview of `services`; see `overview_text`.
pub fn overview_for_services(services: &Vec<ServiceInfo>) -> (text: String)
    ensures
        text@ == overview_text(services@),
{
    let mut body = section_for_services(services, Section::FailedEssential, "Failed essential services:\n");
    let part = section_for_services(services, Section::FailedOptional, "Failed optional services:\n");
    body.append(part.as_str());
    let part = section_for_services(services, Section::Essential, "Essential services:\n");
    body.append(part.as_str());
    let part = section_for_services(services, Section::Optional, "Optional services:\n");
    body.append(part.as_str());
    let part = section_for_services(services, Section::Other, "Other services:\n");
    body.append(part.as_str());
    assert(body@ =~= overview_body(services@));
    let width = longest_line_width(body.as_str());
    let mut text = String::from_str("Status overview\n");
    let mut j: u128 = 0;
    while j < width
        invariant
            j <= width,
            text@ == "Status overview\n"@ + Seq::new(j as nat, |i: int| '\u{2500}'),
        decreases width - j,
    {
        text.append("\u{2500}");
        proof {
            reveal_strlit("\u{2500}");
            assert("\u{2500}"@ =~= seq!['\u{2500}']);
        }
        j = j + 1;
        assert(text@ =~= "Status overview\n"@ + Seq::new(j as nat, |i: int| '\u{2500}'));
    }
    text.append("\n");
    text.append(body.as_str());
    text
}

/// The listing of `services`; see `services_listing`.
pub fn listing_for_services(services: &Vec<ServiceInfo>) -> (text: String)
    ensures
        text@ == services_listing(services@),
{
    let mut text = String::from_str("Services: ");
    if services.len() == 0 {
        text.append("None");
        return text;
    }
    let mut names = String::new();
    let mut k: usize = 0;
    while k < services.len()
        invariant
            k <= services@.len(),
            names@ == join_lines(service_names(services@.take(k as int)), ", "@),
        decreases services.len() - k,
    {
        let ghost before = service_names(services@.take(k as int));
        let ghost after = service_names(services@.take(k + 1));
        assert(after =~= before.push(services@[k as int].name@));
        assert(after.drop_last() =~= before);
        if k > 0 {
            names.append(", ");
        }
        names.append(services[k].name.as_str());
        proof {
            if k == 0 {
                assert(names@ =~= join_lines(after, ", "@));
            }
        }
        k = k + 1;
    }
    assert(services@.take(k as int) =~= services@);
    text.append(names.as_str());
    text
}

} // verus!
