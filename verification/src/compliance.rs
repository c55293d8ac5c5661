//! Roles and what they may do, the password policy, the lockout of
//! accounts, and the summary of a compliance assessment.

use vstd::prelude::*;
use vstd::utf8::encode_utf8;
use crate::error::SIEMError;
use crate::outside::alphanumeric;
use crate::outside::is_alphanumeric;
use crate::outside::is_lowercase;
use crate::outside::is_numeric;
use crate::outside::is_uppercase;
use crate::outside::lowercase;
use crate::outside::numeric;
use crate::outside::uppercase;

verus! {

/// What a user may be allowed to do.
#[derive(Debug, PartialEq, Eq, Hash)]
pub enum Permission {
    ReadAllData,
    ReadSecurityData,
    ReadComplianceData,
    ReadAuditLogs,
    ExecuteQueries,
    ExecuteAdvancedQueries,
    ExportData,
    ModifySystemConfig,
    ModifySecurityRules,
    ModifyComplianceRules,
    ModifyUserAccess,
    CreateIncidents,
    UpdateIncidents,
    ExecuteResponseActions,
    EscalateIncidents,
    GenerateReports,
    ExportReports,
    ModifyComplianceSettings,
    ManageUsers,
    ManageRoles,
    SystemAdministration,
    Custom { name: String, description: String },
}

/// What a `Permission` holds, as mathematical values.
pub enum PermissionView {
    ReadAllData,
    ReadSecurityData,
    ReadComplianceData,
    ReadAuditLogs,
    ExecuteQueries,
    ExecuteAdvancedQueries,
    ExportData,
    ModifySystemConfig,
    ModifySecurityRules,
    ModifyComplianceRules,
    ModifyUserAccess,
    CreateIncidents,
    UpdateIncidents,
    ExecuteResponseActions,
    EscalateIncidents,
    GenerateReports,
    ExportReports,
    ModifyComplianceSettings,
    ManageUsers,
    ManageRoles,
    SystemAdministration,
    Custom { name: Seq<char>, description: Seq<char> },
}

impl DeepView for Permission {
    type V = PermissionView;

    open spec fn deep_view(&self) -> PermissionView {
        match self {
            Permission::ReadAllData => PermissionView::ReadAllData,
            Permission::ReadSecurityData => PermissionView::ReadSecurityData,
            Permission::ReadComplianceData => PermissionView::ReadComplianceData,
            Permission::ReadAuditLogs => PermissionView::ReadAuditLogs,
            Permission::ExecuteQueries => PermissionView::ExecuteQueries,
            Permission::ExecuteAdvancedQueries => PermissionView::ExecuteAdvancedQueries,
            Permission::ExportData => PermissionView::ExportData,
            Permission::ModifySystemConfig => PermissionView::ModifySystemConfig,
            Permission::ModifySecurityRules => PermissionView::ModifySecurityRules,
            Permission::ModifyComplianceRules => PermissionView::ModifyComplianceRules,
            Permission::ModifyUserAccess => PermissionView::ModifyUserAccess,
            Permission::CreateIncidents => PermissionView::CreateIncidents,
            Permission::UpdateIncidents => PermissionView::UpdateIncidents,
            Permission::ExecuteResponseActions => PermissionView::ExecuteResponseActions,
            Permission::EscalateIncidents => PermissionView::EscalateIncidents,
            Permission::GenerateReports => PermissionView::GenerateReports,
            Permission::ExportReports => PermissionView::ExportReports,
            Permission::ModifyComplianceSettings => PermissionView::ModifyComplianceSettings,
            Permission::ManageUsers => PermissionView::ManageUsers,
            Permission::ManageRoles => PermissionView::ManageRoles,
            Permission::SystemAdministration => PermissionView::SystemAdministration,
            Permission::Custom { name, description } => PermissionView::Custom {
                name: name@,
                description: description@,
            },
        }
    }
}

impl View for Permission {
    type V = PermissionView;

    open spec fn view(&self) -> PermissionView {
        self.deep_view()
    }
}

impl Clone for Permission {
    fn clone(&self) -> (r: Self)
        ensures
            r@ == self@,
    {
        match self {
            Permission::ReadAllData => Permission::ReadAllData,
            Permission::ReadSecurityData => Permission::ReadSecurityData,
            Permission::ReadComplianceData => Permission::ReadComplianceData,
            Permission::ReadAuditLogs => Permission::ReadAuditLogs,
            Permission::ExecuteQueries => Permission::ExecuteQueries,
            Permission::ExecuteAdvancedQueries => Permission::ExecuteAdvancedQueries,
            Permission::ExportData => Permission::ExportData,
            Permission::ModifySystemConfig => Permission::ModifySystemConfig,
            Permission::ModifySecurityRules => Permission::ModifySecurityRules,
            Permission::ModifyComplianceRules => Permission::ModifyComplianceRules,
            Permission::ModifyUserAccess => Permission::ModifyUserAccess,
            Permission::CreateIncidents => Permission::CreateIncidents,
            Permission::UpdateIncidents => Permission::UpdateIncidents,
            Permission::ExecuteResponseActions => Permission::ExecuteResponseActions,
            Permission::EscalateIncidents => Permission::EscalateIncidents,
            Permission::GenerateReports => Permission::GenerateReports,
            Permission::ExportReports => Permission::ExportReports,
            Permission::ModifyComplianceSettings => Permission::ModifyComplianceSettings,
            Permission::ManageUsers => Permission::ManageUsers,
            Permission::ManageRoles => Permission::ManageRoles,
            Permission::SystemAdministration => Permission::SystemAdministration,
            Permission::Custom { name, description } => Permission::Custom {
                name: name.clone(),
                description: description.clone(),
            },
        }
    }
}

/// The role of a user.
#[derive(Debug, PartialEq, Eq, Hash)]
pub enum UserRole {
    SuperAdmin,
    SecurityAdmin,
    SecurityAnalyst,
    ComplianceOfficer,
    IncidentResponder,
    ReadOnly,
    Custom { name: String, permissions: Vec<Permission> },
}

/// What a `UserRole` holds, as mathematical values.
pub enum UserRoleView {
    SuperAdmin,
    SecurityAdmin,
    SecurityAnalyst,
    ComplianceOfficer,
    IncidentResponder,
    ReadOnly,
    Custom { name: Seq<char>, permissions: Seq<PermissionView> },
}

impl DeepView for UserRole {
    type V = UserRoleView;

    open spec fn deep_view(&self) -> UserRoleView {
        match self {
            UserRole::SuperAdmin => UserRoleView::SuperAdmin,
            UserRole::SecurityAdmin => UserRoleView::SecurityAdmin,
            UserRole::SecurityAnalyst => UserRoleView::SecurityAnalyst,
            UserRole::ComplianceOfficer => UserRoleView::ComplianceOfficer,
            UserRole::IncidentResponder => UserRoleView::IncidentResponder,
            UserRole::ReadOnly => UserRoleView::ReadOnly,
            UserRole::Custom { name, permissions } => UserRoleView::Custom {
                name: name@,
                permissions: permissions.deep_view(),
            },
        }
    }
}

impl View for UserRole {
    type V = UserRoleView;

    open spec fn view(&self) -> UserRoleView {
        self.deep_view()
    }
}

/// The name of a role as text; a custom role is written `Custom:` and its
/// name.
pub open spec fn role_name(role: UserRoleView) -> Seq<char> {
    match role {
        UserRoleView::SuperAdmin => "SuperAdmin"@,
        UserRoleView::SecurityAdmin => "SecurityAdmin"@,
        UserRoleView::SecurityAnalyst => "SecurityAnalyst"@,
        UserRoleView::ComplianceOfficer => "ComplianceOfficer"@,
        UserRoleView::IncidentResponder => "IncidentResponder"@,
        UserRoleView::ReadOnly => "ReadOnly"@,
        UserRoleView::Custom { name, permissions } => "Custom:"@ + name,
    }
}

/// What a role may do. A custom role may do what it lists.
pub open spec fn role_permissions(role: UserRoleView) -> Seq<PermissionView> {
    match role {
        UserRoleView::SuperAdmin => seq![
            PermissionView::ReadAllData,
            PermissionView::ExecuteQueries,
            PermissionView::ExecuteAdvancedQueries,
            PermissionView::ExportData,
            PermissionView::ModifySystemConfig,
            PermissionView::ModifySecurityRules,
            PermissionView::ModifyComplianceRules,
            PermissionView::ModifyUserAccess,
            PermissionView::CreateIncidents,
            PermissionView::UpdateIncidents,
            PermissionView::ExecuteResponseActions,
            PermissionView::EscalateIncidents,
            PermissionView::GenerateReports,
            PermissionView::ExportReports,
            PermissionView::ModifyComplianceSettings,
            PermissionView::ManageUsers,
            PermissionView::ManageRoles,
            PermissionView::SystemAdministration,
        ],
        UserRoleView::SecurityAdmin => seq![
            PermissionView::ReadAllData,
            PermissionView::ExecuteQueries,
            PermissionView::ExecuteAdvancedQueries,
            PermissionView::ExportData,
            PermissionView::ModifySecurityRules,
            PermissionView::CreateIncidents,
            PermissionView::UpdateIncidents,
            PermissionView::ExecuteResponseActions,
            PermissionView::EscalateIncidents,
            PermissionView::GenerateReports,
            PermissionView::ExportReports,
        ],
        UserRoleView::SecurityAnalyst => seq![
            PermissionView::ReadSecurityData,
            PermissionView::ExecuteQueries,
            PermissionView::ExportData,
            PermissionView::CreateIncidents,
            PermissionView::UpdateIncidents,
            PermissionView::GenerateReports,
        ],
        UserRoleView::ComplianceOfficer => seq![
            PermissionView::ReadComplianceData,
            PermissionView::ReadAuditLogs,
            PermissionView::ExecuteQueries,
            PermissionView::GenerateReports,
            PermissionView::ExportReports,
            PermissionView::ModifyComplianceSettings,
        ],
        UserRoleView::IncidentResponder => seq![
            PermissionView::ReadSecurityData,
            PermissionView::ExecuteQueries,
            PermissionView::CreateIncidents,
            PermissionView::UpdateIncidents,
            PermissionView::ExecuteResponseActions,
        ],
        UserRoleView::ReadOnly => seq![PermissionView::ReadSecurityData, PermissionView::ExecuteQueries],
        UserRoleView::Custom { name, permissions } => permissions,
    }
}

/// A copy of a list of permissions.
pub fn clone_permissions(v: &Vec<Permission>) -> (r: Vec<Permission>)
    ensures
        r.deep_view() == v.deep_view(),
{
    let mut r: Vec<Permission> = Vec::new();
    let mut i: usize = 0;
    while i < v.len()
        invariant
            i <= v.len(),
            r.len() == i,
            forall|j: int| 0 <= j < i ==> r@[j]@ == v@[j]@,
        decreases v.len() - i,
    {
        r.push(v[i].clone());
        i += 1;
    }
    proof {
        assert(r.deep_view() =~= v.deep_view());
    }
    r
}

impl UserRole {
    /// The name of the role.
    pub fn name(&self) -> (r: String)
        ensures
            r@ == role_name(self@),
    {
        match self {
            UserRole::SuperAdmin => String::from_str("SuperAdmin"),
            UserRole::SecurityAdmin => String::from_str("SecurityAdmin"),
            UserRole::SecurityAnalyst => String::from_str("SecurityAnalyst"),
            UserRole::ComplianceOfficer => String::from_str("ComplianceOfficer"),
            UserRole::IncidentResponder => String::from_str("IncidentResponder"),
            UserRole::ReadOnly => String::from_str("ReadOnly"),
            UserRole::Custom { name, permissions } => {
                let mut text = String::from_str("Custom:");
                text.append(name.as_str());
                text
            },
        }
    }
}

/// What a role may do.
pub fn get_role_permissions(role: &UserRole) -> (r: Vec<Permission>)
    ensures
        r.deep_view() == role_permissions(role@),
{
    let mut permissions: Vec<Permission> = Vec::new();
    match role {
        UserRole::SuperAdmin => {
            permissions.push(Permission::ReadAllData);
            permissions.push(Permission::ExecuteQueries);
            permissions.push(Permission::ExecuteAdvancedQueries);
            permissions.push(Permission::ExportData);
            permissions.push(Permission::ModifySystemConfig);
            permissions.push(Permission::ModifySecurityRules);
            permissions.push(Permission::ModifyComplianceRules);
            permissions.push(Permission::ModifyUserAccess);
            permissions.push(Permission::CreateIncidents);
            permissions.push(Permission::UpdateIncidents);
            permissions.push(Permission::ExecuteResponseActions);
            permissions.push(Permission::EscalateIncidents);
            permissions.push(Permission::GenerateReports);
            permissions.push(Permission::ExportReports);
            permissions.push(Permission::ModifyComplianceSettings);
            permissions.push(Permission::ManageUsers);
            permissions.push(Permission::ManageRoles);
            permissions.push(Permission::SystemAdministration);
        },
        UserRole::SecurityAdmin => {
            permissions.push(Permission::ReadAllData);
            permissions.push(Permission::ExecuteQueries);
            permissions.push(Permission::ExecuteAdvancedQueries);
            permissions.push(Permission::ExportData);
            permissions.push(Permission::ModifySecurityRules);
            permissions.push(Permission::CreateIncidents);
            permissions.push(Permission::UpdateIncidents);
            permissions.push(Permission::ExecuteResponseActions);
            permissions.push(Permission::EscalateIncidents);
            permissions.push(Permission::GenerateReports);
            permissions.push(Permission::ExportReports);
        },
        UserRole::SecurityAnalyst => {
            permissions.push(Permission::ReadSecurityData);
            permissions.push(Permission::ExecuteQueries);
            permissions.push(Permission::ExportData);
            permissions.push(Permission::CreateIncidents);
            permissions.push(Permission::UpdateIncidents);
            permissions.push(Permission::GenerateReports);
        },
        UserRole::ComplianceOfficer => {
            permissions.push(Permission::ReadComplianceData);
            permissions.push(Permission::ReadAuditLogs);
            permissions.push(Permission::ExecuteQueries);
            permissions.push(Permission::GenerateReports);
            permissions.push(Permission::ExportReports);
            permissions.push(Permission::ModifyComplianceSettings);
        },
        UserRole::IncidentResponder => {
            permissions.push(Permission::ReadSecurityData);
            permissions.push(Permission::ExecuteQueries);
            permissions.push(Permission::CreateIncidents);
            permissions.push(Permission::UpdateIncidents);
            permissions.push(Permission::ExecuteResponseActions);
        },
        UserRole::ReadOnly => {
            permissions.push(Permission::ReadSecurityData);
            permissions.push(Permission::ExecuteQueries);
        },
        UserRole::Custom { name, permissions: listed } => {
            return clone_permissions(listed);
        },
    }
    proof {
        assert(permissions.deep_view() =~= role_permissions(role@));
    }
    permissions
}

/// What kind of activity an audit record is about.
#[derive(Clone, Copy, Debug, PartialEq, Eq, Structural, Hash)]
pub enum ComplianceCategory {
    AccessControl,
    DataProtection,
    IncidentResponse,
    ConfigurationManagement,
    UserManagement,
    SystemAdministration,
    DataExport,
    ReportGeneration,
    SecurityMonitoring,
    ComplianceReporting,
}

/// How much is at risk.
#[derive(Clone, Copy, Debug, PartialEq, Eq, Structural, Hash)]
pub enum RiskLevel {
    Low,
    Medium,
    High,
    Critical,
}

/// How data is classified.
#[derive(Clone, Copy, Debug, PartialEq, Eq, Structural, Hash)]
pub enum DataClassification {
    Public,
    Internal,
    Confidential,
    Restricted,
    Classified,
}

/// A framework that compliance is assessed against.
#[derive(Clone, Debug, PartialEq, Eq)]
pub enum ComplianceFramework {
    SOC2,
    PCI_DSS,
    GDPR,
    HIPAA,
    ISO27001,
    NIST,
    SOX,
    Custom { name: String, requirements: Vec<String> },
}

/// Where a requirement stands.
#[derive(Clone, Copy, Debug, PartialEq, Eq, Structural, Hash)]
pub enum ComplianceStatus {
    Compliant,
    NonCompliant,
    Partial,
    NotApplicable,
    UnderReview,
}

/// Where a finding of an assessment stands.
#[derive(Clone, Copy, Debug, PartialEq, Eq, Structural, Hash)]
pub enum FindingStatus {
    Open,
    InProgress,
    Remediated,
    Verified,
    Closed,
}

/// The format in which audit records are handed out.
#[derive(Clone, Copy, Debug, PartialEq, Eq, Structural, Hash)]
pub enum ExportFormat {
    JSON,
    CSV,
    XML,
}

/// What a token says of its bearer.
#[derive(Clone, Debug, PartialEq, Eq)]
pub struct Claims {
    pub sub: String,
    pub username: String,
    pub role: String,
    pub permissions: Vec<String>,
    /// When the token runs out, in seconds since the epoch.
    pub exp: usize,
    /// When the token was issued.
    pub iat: usize,
    pub jti: String,
}

impl Claims {
    /// Whether the token has run out at `now`.
    pub fn is_expired(&self, now: usize) -> (r: bool)
        ensures
            r == (self.exp < now),
    {
        self.exp < now
    }
}

/// What a password has to look like, and when an account is locked.
#[derive(Clone, Copy, Debug, PartialEq, Eq, Structural)]
pub struct PasswordPolicy {
    pub min_length: u32,
    pub require_uppercase: bool,
    pub require_lowercase: bool,
    pub require_numbers: bool,
    pub require_special_chars: bool,
    pub max_age_days: u32,
    pub prevent_reuse_count: u32,
    pub lockout_threshold: u32,
    pub lockout_duration_minutes: u32,
}

/// The policy that an engine begins with.
pub open spec fn default_password_policy() -> PasswordPolicy {
    PasswordPolicy {
        min_length: 12,
        require_uppercase: true,
        require_lowercase: true,
        require_numbers: true,
        require_special_chars: true,
        max_age_days: 90,
        prevent_reuse_count: 5,
        lockout_threshold: 5,
        lockout_duration_minutes: 30,
    }
}

impl Default for PasswordPolicy {
    fn default() -> (r: Self)
        ensures
            r == default_password_policy(),
    {
        PasswordPolicy {
            min_length: 12,
            require_uppercase: true,
            require_lowercase: true,
            require_numbers: true,
            require_special_chars: true,
            max_age_days: 90,
            prevent_reuse_count: 5,
            lockout_threshold: 5,
            lockout_duration_minutes: 30,
        }
    }
}

/// What a password holds, by kind of character.
pub struct PasswordShape {
    pub upper: bool,
    pub lower: bool,
    pub number: bool,
    pub special: bool,
}

/// The kinds of character among the first `n` characters of a password.
pub open spec fn shape_upto(password: Seq<char>, n: int) -> PasswordShape
    decreases n,
{
    if n <= 0 {
        PasswordShape { upper: false, lower: false, number: false, special: false }
    } else {
        let before = shape_upto(password, n - 1);
        let c = password[n - 1];
        PasswordShape {
            upper: before.upper || uppercase(c),
            lower: before.lower || lowercase(c),
            number: before.number || numeric(c),
            special: before.special || !alphanumeric(c),
        }
    }
}

/// What is wrong with a password, if anything: the first of the policy's
/// demands that it does not meet. Its length is counted in bytes.
pub open spec fn password_fault(policy: PasswordPolicy, password: Seq<char>) -> Option<Seq<char>> {
    let shape = shape_upto(password, password.len() as int);
    if encode_utf8(password).len() < policy.min_length {
        Some("Password too short"@)
    } else if policy.require_uppercase && !shape.upper {
        Some("Password must contain uppercase letter"@)
    } else if policy.require_lowercase && !shape.lower {
        Some("Password must contain lowercase letter"@)
    } else if policy.require_numbers && !shape.number {
        Some("Password must contain number"@)
    } else if policy.require_special_chars && !shape.special {
        Some("Password must contain special character"@)
    } else {
        None
    }
}

/// Holds a password against the policy.
pub fn validate_password_policy(policy: &PasswordPolicy, password: &str) -> (r: Result<(), SIEMError>)
    ensures
        r is Ok <==> password_fault(*policy, password@) is None,
        r is Err ==> r->Err_0 is Other && r->Err_0.detail() == password_fault(
            *policy,
            password@,
        )->Some_0,
{
    if (password.as_bytes().len() as u64) < policy.min_length as u64 {
        return Err(SIEMError::Other(String::from_str("Password too short")));
    }
    let n = password.unicode_len();
    let mut upper = false;
    let mut lower = false;
    let mut number = false;
    let mut special = false;
    let mut i: usize = 0;
    while i < n
        invariant
            i <= n,
            n == password@.len(),
            upper == shape_upto(password@, i as int).upper,
            lower == shape_upto(password@, i as int).lower,
            number == shape_upto(password@, i as int).number,
            special == shape_upto(password@, i as int).special,
        decreases n - i,
    {
        let c = password.get_char(i);
        if is_uppercase(c) {
            upper = true;
        }
        if is_lowercase(c) {
            lower = true;
        }
        if is_numeric(c) {
            number = true;
        }
        if !is_alphanumeric(c) {
            special = true;
        }
        i += 1;
    }
    if policy.require_uppercase && !upper {
        return Err(SIEMError::Other(String::from_str("Password must contain uppercase letter")));
    }
    if policy.require_lowercase && !lower {
        return Err(SIEMError::Other(String::from_str("Password must contain lowercase letter")));
    }
    if policy.require_numbers && !number {
        return Err(SIEMError::Other(String::from_str("Password must contain number")));
    }
    if policy.require_special_chars && !special {
        return Err(SIEMError::Other(String::from_str("Password must contain special character")));
    }
    Ok(())
}

/// How an account stands after a failed login: one more failed attempt,
/// and locked once the attempts have reached the threshold.
pub fn increment_failed_login_attempts(attempts: u32, locked: bool, policy: &PasswordPolicy) -> (r: (
    u32,
    bool,
))
    ensures
        r.0 == (if attempts == u32::MAX {
            attempts
        } else {
            (attempts + 1) as u32
        }),
        r.1 == (locked || r.0 >= policy.lockout_threshold),
{
    let count = if attempts == u32::MAX {
        attempts
    } else {
        attempts + 1
    };
    (count, locked || count >= policy.lockout_threshold)
}

/// The summary of an assessment.
#[derive(Clone, Copy, Debug, PartialEq, Eq, Structural)]
pub struct ComplianceSummary {
    pub total_requirements: u32,
    pub compliant: u32,
    pub non_compliant: u32,
    pub partial: u32,
    pub not_applicable: u32,
    /// The share of compliant requirements, in thousandths.
    pub compliance_permille: u32,
    pub critical_findings: u32,
    pub high_findings: u32,
    pub medium_findings: u32,
    pub low_findings: u32,
}

/// How many of the first `n` requirements stand in a status.
pub open spec fn count_status(statuses: Seq<ComplianceStatus>, status: ComplianceStatus, n: int) -> nat
    decreases n,
{
    if n <= 0 {
        0
    } else {
        count_status(statuses, status, n - 1) + if statuses[n - 1] == status {
            1nat
        } else {
            0nat
        }
    }
}

/// The summary of requirements that stand as listed.
pub open spec fn summary_of(statuses: Seq<ComplianceStatus>) -> ComplianceSummary {
    let n = statuses.len() as int;
    let compliant = count_status(statuses, ComplianceStatus::Compliant, n);
    ComplianceSummary {
        total_requirements: n as u32,
        compliant: compliant as u32,
        non_compliant: count_status(statuses, ComplianceStatus::NonCompliant, n) as u32,
        partial: count_status(statuses, ComplianceStatus::Partial, n) as u32,
        not_applicable: count_status(statuses, ComplianceStatus::NotApplicable, n) as u32,
        compliance_permille: if n > 0 {
            (compliant * 1000 / (n as nat)) as u32
        } else {
            0
        },
        critical_findings: 0,
        high_findings: 0,
        medium_findings: 0,
        low_findings: 0,
    }
}

/// Sums an assessment up.
pub fn calculate_compliance_summary(statuses: &Vec<ComplianceStatus>) -> (r: ComplianceSummary)
    requires
        statuses@.len() <= u32::MAX,
    ensures
        r == summary_of(statuses@),
{
    let mut compliant: u32 = 0;
    let mut non_compliant: u32 = 0;
    let mut partial: u32 = 0;
    let mut not_applicable: u32 = 0;
    let mut i: usize = 0;
    while i < statuses.len()
        invariant
            i <= statuses@.len(),
            statuses@.len() <= u32::MAX,
            compliant == count_status(statuses@, ComplianceStatus::Compliant, i as int),
            non_compliant == count_status(statuses@, ComplianceStatus::NonCompliant, i as int),
            partial == count_status(statuses@, ComplianceStatus::Partial, i as int),
            not_applicable == count_status(statuses@, ComplianceStatus::NotApplicable, i as int),
            compliant <= i,
            non_compliant <= i,
            partial <= i,
            not_applicable <= i,
        decreases statuses@.len() - i,
    {
        match statuses[i] {
            ComplianceStatus::Compliant => {
                compliant += 1;
            },
            ComplianceStatus::NonCompliant => {
                non_compliant += 1;
            },
            ComplianceStatus::Partial => {
                partial += 1;
            },
            ComplianceStatus::NotApplicable => {
                not_applicable += 1;
            },
            ComplianceStatus::UnderReview => {},
        }
        i += 1;
    }
    let total = statuses.len() as u32;
    let permille: u32 = if total > 0 {
        proof {
            assert(compliant as int * 1000 / (total as int) <= 1000) by (nonlinear_arith)
                requires
                    compliant <= total,
                    total > 0,
            ;
        }
        ((compliant as u64 * 1000) / (total as u64)) as u32
    } else {
        0
    };
    ComplianceSummary {
        total_requirements: total,
        compliant,
        non_compliant,
        partial,
        not_applicable,
        compliance_permille: permille,
        critical_findings: 0,
        high_findings: 0,
        medium_findings: 0,
        low_findings: 0,
    }
}

/// What a summary calls for.
pub open spec fn recommendations_for(summary: ComplianceSummary) -> Seq<Seq<char>> {
    (if summary.compliance_permille < 900 {
        seq!["Improve overall compliance posture"@]
    } else {
        Seq::empty()
    }) + (if summary.non_compliant > 0 {
        seq!["Address non-compliant requirements immediately"@]
    } else {
        Seq::empty()
    }) + (if summary.partial > 0 {
        seq!["Complete partially compliant requirements"@]
    } else {
        Seq::empty()
    })
}

/// What a summary calls for: a better posture under nine tenths of
/// compliance, and attention for what is not or only partly compliant.
pub fn generate_recommendations(summary: &ComplianceSummary) -> (r: Vec<String>)
    ensures
        r.deep_view() == recommendations_for(*summary),
{
    let mut recommendations: Vec<String> = Vec::new();
    if summary.compliance_permille < 900 {
        recommendations.push(String::from_str("Improve overall compliance posture"));
    }
    if summary.non_compliant > 0 {
        recommendations.push(String::from_str("Address non-compliant requirements immediately"));
    }
    if summary.partial > 0 {
        recommendations.push(String::from_str("Complete partially compliant requirements"));
    }
    proof {
        assert(recommendations.deep_view() =~= recommendations_for(*summary));
    }
    recommendations
}

} // verus!
