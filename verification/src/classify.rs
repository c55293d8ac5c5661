//! Quick classification of payloads by the fragments of known attacks that
//! they hold: on web pages, on databases, by malware, on the command line,
//! and by processes that have no business running.

use vstd::prelude::*;
use crate::outside::lowercase_of;
use crate::outside::to_lowercase;
use crate::outside::to_uppercase;
use crate::outside::uppercase_of;
use crate::text::contains;
use crate::text::contains_ignoring_case;
use crate::text::contains_text;
use crate::text::contains_text_ignoring_case;
use crate::text::decimal_text;
use crate::text::str_eq;
use crate::text::u64_to_text;

verus! {

/// Whether a payload holds a fragment of cross-site scripting.
pub open spec fn is_xss(data: Seq<char>) -> bool {
    contains_text(data, "<script>"@) || contains_text(data, "javascript:"@) || contains_text(
        data,
        "<iframe"@,
    ) || contains_text(data, "onload="@) || contains_text(data, "onerror="@)
}

/// Whether a payload holds a fragment of cross-site scripting.
pub fn detect_xss(data: &str) -> (r: bool)
    ensures
        r == is_xss(data@),
{
    contains(data, "<script>") || contains(data, "javascript:") || contains(data, "<iframe")
        || contains(data, "onload=") || contains(data, "onerror=")
}

/// Whether a text holds a fragment when both are put in upper case.
pub open spec fn holds_in_upper_case(data: Seq<char>, fragment: Seq<char>) -> bool {
    contains_text(uppercase_of(data), uppercase_of(fragment))
}

/// Whether a text holds a fragment when both are put in upper case.
pub fn contains_in_upper_case(data: &str, fragment: &str) -> (r: bool)
    ensures
        r == holds_in_upper_case(data@, fragment@),
{
    let d = to_uppercase(data);
    let f = to_uppercase(fragment);
    contains(d.as_str(), f.as_str())
}

/// Whether a payload holds a fragment of an SQL injection, case ignored.
pub open spec fn is_sql_injection(data: Seq<char>) -> bool {
    holds_in_upper_case(data, "UNION SELECT"@) || holds_in_upper_case(data, "' OR 1=1"@)
        || holds_in_upper_case(data, "'; DROP TABLE"@) || holds_in_upper_case(data, "/**/"@)
        || holds_in_upper_case(data, "-- "@) || holds_in_upper_case(data, "DROP DATABASE"@)
}

/// Whether a payload holds a fragment of an SQL injection, case ignored.
pub fn detect_sql_injection(data: &str) -> (r: bool)
    ensures
        r == is_sql_injection(data@),
{
    contains_in_upper_case(data, "UNION SELECT") || contains_in_upper_case(data, "' OR 1=1")
        || contains_in_upper_case(data, "'; DROP TABLE") || contains_in_upper_case(data, "/**/")
        || contains_in_upper_case(data, "-- ") || contains_in_upper_case(data, "DROP DATABASE")
}

/// Whether a payload holds a fragment typical of malware, case ignored.
pub open spec fn is_malware(data: Seq<char>) -> bool {
    contains_text_ignoring_case(data, "eval("@) || contains_text_ignoring_case(data, "cmd.exe"@)
        || contains_text_ignoring_case(data, "powershell.exe"@) || contains_text_ignoring_case(
        data,
        "base64"@,
    ) || contains_text_ignoring_case(data, "certutil"@)
}

/// Whether a payload holds a fragment typical of malware, case ignored.
pub fn detect_malware(data: &str) -> (r: bool)
    ensures
        r == is_malware(data@),
{
    contains_ignoring_case(data, "eval(") || contains_ignoring_case(data, "cmd.exe")
        || contains_ignoring_case(data, "powershell.exe") || contains_ignoring_case(data, "base64")
        || contains_ignoring_case(data, "certutil")
}

/// What kind of threat a payload was taken for.
#[derive(Clone, Copy, Debug, PartialEq, Eq, Structural, Hash)]
pub enum ThreatKind {
    Xss,
    SqlInjection,
    Malware,
    Ransomware,
}

impl ThreatKind {
    /// How severe a threat of the kind is, from 1 to 5.
    pub open spec fn severity(self) -> u8 {
        match self {
            ThreatKind::Ransomware => 5,
            ThreatKind::Malware => 4,
            ThreatKind::SqlInjection => 4,
            ThreatKind::Xss => 3,
        }
    }

    /// The confidence in a threat of the kind before the size of the
    /// payload is taken into account, in thousandths.
    pub open spec fn confidence(self) -> u16 {
        match self {
            ThreatKind::Xss => 850,
            ThreatKind::SqlInjection => 900,
            ThreatKind::Malware => 950,
            ThreatKind::Ransomware => 980,
        }
    }

    /// The name of the kind as text.
    pub open spec fn name_text(self) -> Seq<char> {
        match self {
            ThreatKind::Xss => "xss"@,
            ThreatKind::SqlInjection => "sql_injection"@,
            ThreatKind::Malware => "malware"@,
            ThreatKind::Ransomware => "ransomware"@,
        }
    }

    /// How severe a threat of the kind is, from 1 to 5.
    pub fn severity_level(self) -> (r: u8)
        ensures
            r == self.severity(),
    {
        match self {
            ThreatKind::Ransomware => 5,
            ThreatKind::Malware => 4,
            ThreatKind::SqlInjection => 4,
            ThreatKind::Xss => 3,
        }
    }

    /// The confidence in a threat of the kind, in thousandths.
    pub fn base_confidence(self) -> (r: u16)
        ensures
            r == self.confidence(),
    {
        match self {
            ThreatKind::Xss => 850,
            ThreatKind::SqlInjection => 900,
            ThreatKind::Malware => 950,
            ThreatKind::Ransomware => 980,
        }
    }

    /// The name of the kind.
    pub fn name(self) -> (r: String)
        ensures
            r@ == self.name_text(),
    {
        match self {
            ThreatKind::Xss => String::from_str("xss"),
            ThreatKind::SqlInjection => String::from_str("sql_injection"),
            ThreatKind::Malware => String::from_str("malware"),
            ThreatKind::Ransomware => String::from_str("ransomware"),
        }
    }
}

/// What a payload is taken for: cross-site scripting first, then an SQL
/// injection, then malware, which is ransomware where the payload speaks of
/// encryption or Bitcoin; nothing where none of these is found.
pub open spec fn kind_of(data: Seq<char>) -> Option<ThreatKind> {
    if is_xss(data) {
        Some(ThreatKind::Xss)
    } else if is_sql_injection(data) {
        Some(ThreatKind::SqlInjection)
    } else if is_malware(data) {
        if contains_text(data, "encrypted"@) || contains_text(data, "Bitcoin"@) {
            Some(ThreatKind::Ransomware)
        } else {
            Some(ThreatKind::Malware)
        }
    } else {
        None
    }
}

/// Says what a payload is taken for.
pub fn classify_payload(data: &str) -> (r: Option<ThreatKind>)
    ensures
        r == kind_of(data@),
{
    if detect_xss(data) {
        Some(ThreatKind::Xss)
    } else if detect_sql_injection(data) {
        Some(ThreatKind::SqlInjection)
    } else if detect_malware(data) {
        if contains(data, "encrypted") || contains(data, "Bitcoin") {
            Some(ThreatKind::Ransomware)
        } else {
            Some(ThreatKind::Malware)
        }
    } else {
        None
    }
}

/// The address that stands for the source of sample payload `i`.
pub fn sample_source_ip(i: u64) -> (r: String)
    ensures
        r@ == "192.168.1."@ + decimal_text((100 + i % 155) as nat),
{
    let mut ip = String::from_str("192.168.1.");
    ip.append(u64_to_text(100 + i % 155).as_str());
    ip
}

/// Whether a payload holds a fragment of an attack on a web application,
/// case ignored.
pub open spec fn is_web_attack(payload: Seq<char>) -> bool {
    contains_text_ignoring_case(payload, "<script>"@) || contains_text_ignoring_case(
        payload,
        "javascript:"@,
    ) || contains_text_ignoring_case(payload, "onload="@) || contains_text_ignoring_case(
        payload,
        "onerror="@,
    ) || contains_text_ignoring_case(payload, "UNION SELECT"@) || contains_text_ignoring_case(
        payload,
        "'; DROP"@,
    ) || contains_text_ignoring_case(payload, "/**/"@) || contains_text_ignoring_case(
        payload,
        "-- "@,
    ) || contains_text_ignoring_case(payload, "../../../"@) || contains_text_ignoring_case(
        payload,
        "%2e%2e%2f"@,
    ) || contains_text_ignoring_case(payload, "../../../../etc/passwd"@)
}

/// Whether a payload holds a fragment of an attack on a web application,
/// case ignored.
pub fn detect_web_attacks(payload: &str) -> (r: bool)
    ensures
        r == is_web_attack(payload@),
{
    contains_ignoring_case(payload, "<script>") || contains_ignoring_case(payload, "javascript:")
        || contains_ignoring_case(payload, "onload=") || contains_ignoring_case(payload, "onerror=")
        || contains_ignoring_case(payload, "UNION SELECT") || contains_ignoring_case(
        payload,
        "'; DROP",
    ) || contains_ignoring_case(payload, "/**/") || contains_ignoring_case(payload, "-- ")
        || contains_ignoring_case(payload, "../../../") || contains_ignoring_case(
        payload,
        "%2e%2e%2f",
    ) || contains_ignoring_case(payload, "../../../../etc/passwd")
}

/// Whether a payload holds a fragment of a command injection, case ignored.
pub open spec fn is_command_injection(payload: Seq<char>) -> bool {
    contains_text_ignoring_case(payload, "; rm -rf"@) || contains_text_ignoring_case(
        payload,
        "&& rm -rf"@,
    ) || contains_text_ignoring_case(payload, "| nc "@) || contains_text_ignoring_case(
        payload,
        "; wget "@,
    ) || contains_text_ignoring_case(payload, "; curl "@) || contains_text_ignoring_case(
        payload,
        "$("@,
    ) || contains_text_ignoring_case(payload, "`"@) || contains_text_ignoring_case(
        payload,
        "&& wget"@,
    ) || contains_text_ignoring_case(payload, "| bash"@) || contains_text_ignoring_case(
        payload,
        "; powershell"@,
    ) || contains_text_ignoring_case(payload, "cmd.exe"@) || contains_text_ignoring_case(
        payload,
        "/bin/sh"@,
    ) || contains_text_ignoring_case(payload, "/bin/bash"@)
}

/// Whether a payload holds a fragment of a command injection, case ignored.
pub fn detect_command_injection(payload: &str) -> (r: bool)
    ensures
        r == is_command_injection(payload@),
{
    contains_ignoring_case(payload, "; rm -rf") || contains_ignoring_case(payload, "&& rm -rf")
        || contains_ignoring_case(payload, "| nc ") || contains_ignoring_case(payload, "; wget ")
        || contains_ignoring_case(payload, "; curl ") || contains_ignoring_case(payload, "$(")
        || contains_ignoring_case(payload, "`") || contains_ignoring_case(payload, "&& wget")
        || contains_ignoring_case(payload, "| bash") || contains_ignoring_case(
        payload,
        "; powershell",
    ) || contains_ignoring_case(payload, "cmd.exe") || contains_ignoring_case(payload, "/bin/sh")
        || contains_ignoring_case(payload, "/bin/bash")
}

/// Whether the name of a process, in lower case, holds the name of a
/// program that is suspicious on the platform. No process is suspicious
/// on a platform that is not known.
pub open spec fn is_suspicious_process(platform: Seq<char>, process: Seq<char>) -> bool {
    let p = lowercase_of(process);
    if platform == "windows"@ {
        contains_text(p, "powershell.exe"@) || contains_text(p, "cmd.exe"@) || contains_text(
            p,
            "wscript.exe"@,
        ) || contains_text(p, "cscript.exe"@) || contains_text(p, "regsvr32.exe"@)
            || contains_text(p, "rundll32.exe"@) || contains_text(p, "certutil.exe"@)
    } else if platform == "linux"@ {
        contains_text(p, "nc"@) || contains_text(p, "netcat"@) || contains_text(p, "wget"@)
            || contains_text(p, "curl"@) || contains_text(p, "python"@) || contains_text(
            p,
            "perl"@,
        ) || contains_text(p, "bash"@) || contains_text(p, "sh"@) || contains_text(p, "/bin/sh"@)
            || contains_text(p, "nmap"@) || contains_text(p, "masscan"@)
    } else if platform == "macos"@ {
        contains_text(p, "osascript"@) || contains_text(p, "python"@) || contains_text(p, "ruby"@)
            || contains_text(p, "nc"@) || contains_text(p, "wget"@) || contains_text(p, "curl"@)
            || contains_text(p, "bash"@) || contains_text(p, "zsh"@) || contains_text(p, "ssh"@)
            || contains_text(p, "scp"@)
    } else {
        false
    }
}

/// Whether a process is suspicious on a platform; no process, no suspicion.
pub fn detect_suspicious_processes(platform: &str, process_name: Option<&str>) -> (r: bool)
    ensures
        r == (process_name is Some && is_suspicious_process(platform@, process_name->Some_0@)),
{
    let process = match process_name {
        Some(p) => p,
        None => {
            return false;
        },
    };
    let lowered = to_lowercase(process);
    let p = lowered.as_str();
    if str_eq(platform, "windows") {
        contains(p, "powershell.exe") || contains(p, "cmd.exe") || contains(p, "wscript.exe")
            || contains(p, "cscript.exe") || contains(p, "regsvr32.exe") || contains(
            p,
            "rundll32.exe",
        ) || contains(p, "certutil.exe")
    } else if str_eq(platform, "linux") {
        contains(p, "nc") || contains(p, "netcat") || contains(p, "wget") || contains(p, "curl")
            || contains(p, "python") || contains(p, "perl") || contains(p, "bash") || contains(
            p,
            "sh",
        ) || contains(p, "/bin/sh") || contains(p, "nmap") || contains(p, "masscan")
    } else if str_eq(platform, "macos") {
        contains(p, "osascript") || contains(p, "python") || contains(p, "ruby") || contains(
            p,
            "nc",
        ) || contains(p, "wget") || contains(p, "curl") || contains(p, "bash") || contains(
            p,
            "zsh",
        ) || contains(p, "ssh") || contains(p, "scp")
    } else {
        false
    }
}

/// Whether an event is a threat on any platform: by an attack on a web
/// application, a command injection, or a suspicious process.
pub fn detect_universal_threats(payload: &str, platform: &str, process_name: Option<&str>) -> (r: bool)
    ensures
        r == (is_web_attack(payload@) || is_command_injection(payload@) || (process_name is Some
            && is_suspicious_process(platform@, process_name->Some_0@))),
{
    detect_web_attacks(payload) || detect_command_injection(payload) || detect_suspicious_processes(
        platform,
        process_name,
    )
}

} // verus!
