use vstd::prelude::*;

verus! {

/// The two roles a user can hold. Storage keeps the role as a boolean admin flag.
#[allow(non_camel_case_types)]
#[derive(Debug, Clone, Copy, PartialEq, Eq, Structural)]
pub enum Role {
    ADMIN,
    USER,
}

/// The role that the stored admin flag stands for.
pub open spec fn role_of(admin: bool) -> Role {
    if admin {
        Role::ADMIN
    } else {
        Role::USER
    }
}

impl Role {
    /// Decodes the storage flag into a role.
    pub fn from_admin_flag(admin: bool) -> (r: Role)
        ensures
            r == role_of(admin),
    {
        if admin {
            Role::ADMIN
        } else {
            Role::USER
        }
    }

    /// Encodes the role as the storage flag.
    pub fn is_admin(&self) -> (r: bool)
        ensures
            r == (*self == Role::ADMIN),
            role_of(r) == *self,
    {
        match self {
            Role::ADMIN => true,
            Role::USER => false,
        }
    }
}

/// Risk score contributed by an automation (webdriver) signal.
pub const WEBDRIVER_RISK: u8 = 50;

/// Risk score contributed by open developer tools.
pub const DEV_TOOLS_RISK: u8 = 50;

/// A request whose risk score is strictly above this value is rejected.
pub const RISK_THRESHOLD: u8 = 10;

/// Client-supplied signals of one request.
#[derive(Debug, Clone)]
pub struct Fingerprint {
    pub device_id: String,
    pub webdriver: bool,
    pub dev_tools: bool,
}

/// The risk score of a pair of signals: each raised flag adds its weight.
pub open spec fn risk_score(webdriver: bool, dev_tools: bool) -> int {
    (if webdriver { WEBDRIVER_RISK as int } else { 0 }) + (if dev_tools {
        DEV_TOOLS_RISK as int
    } else {
        0
    })
}

impl Fingerprint {
    pub open spec fn spec_score(&self) -> int {
        risk_score(self.webdriver, self.dev_tools)
    }

    /// Whether the fingerprint is turned away before any storage access.
    pub open spec fn is_rejected(&self) -> bool {
        self.spec_score() > RISK_THRESHOLD as int
    }

    /// The risk score: 50 for webdriver, 50 for open developer tools.
    pub fn score(&self) -> (r: u8)
        ensures
            r as int == self.spec_score(),
    {
        let mut risk: u8 = 0;
        if self.webdriver {
            risk += WEBDRIVER_RISK;
        }
        if self.dev_tools {
            risk += DEV_TOOLS_RISK;
        }
        risk
    }

    /// Whether the fingerprint passes the risk gate (score at most the threshold).
    /// Needs no storage, so it can run before the store is locked.
    pub fn passes_risk_gate(&self) -> (r: bool)
        ensures
            r == !self.is_rejected(),
    {
        self.score() <= RISK_THRESHOLD
    }
}

/// Credentials presented for a password login.
#[derive(Debug, Clone)]
pub struct AuthRequest {
    pub login: String,
    pub password: String,
    pub fingerprint: Fingerprint,
}

/// A freshly issued session token and the role of its holder.
#[derive(Debug, Clone)]
pub struct AuthResponse {
    pub token: String,
    pub role: Role,
}

/// An administrator's request to register a new user.
#[derive(Debug, Clone)]
pub struct RegistrationRequest {
    pub login: String,
    pub password: String,
    pub admin: bool,
    pub fingerprint: Fingerprint,
}

/// Host description returned to authorized callers.
#[derive(Debug, Clone)]
pub struct SystemInfo {
    pub cpu: String,
    pub temp: String,
    pub device: String,
    pub distro: String,
    pub environment: String,
    pub gpu: String,
    pub hostname: String,
    pub kernel: String,
    pub memory: String,
}

/// The text shown for a host reading that could not be taken.
pub open spec fn reading_or_dash(v: Option<String>) -> Seq<char> {
    match v {
        Some(s) => s@,
        None => seq!['-'],
    }
}

/// Uses the reading when there is one, else a single dash.
fn reading_text(v: Option<String>) -> (r: String)
    ensures
        r@ == reading_or_dash(v),
{
    match v {
        Some(s) => s,
        None => {
            proof {
                reveal_strlit("-");
            }
            "-".to_owned()
        },
    }
}

impl SystemInfo {
    /// Builds the description from the host readings; a missing reading shows as "-".
    pub fn from_readings(
        cpu: Option<String>,
        temp: Option<String>,
        device: Option<String>,
        distro: Option<String>,
        environment: Option<String>,
        gpu: Option<String>,
        hostname: Option<String>,
        kernel: Option<String>,
        memory: Option<String>,
    ) -> (r: SystemInfo)
        ensures
            r.cpu@ == reading_or_dash(cpu),
            r.temp@ == reading_or_dash(temp),
            r.device@ == reading_or_dash(device),
            r.distro@ == reading_or_dash(distro),
            r.environment@ == reading_or_dash(environment),
            r.gpu@ == reading_or_dash(gpu),
            r.hostname@ == reading_or_dash(hostname),
            r.kernel@ == reading_or_dash(kernel),
            r.memory@ == reading_or_dash(memory),
    {
        SystemInfo {
            cpu: reading_text(cpu),
            temp: reading_text(temp),
            device: reading_text(device),
            distro: reading_text(distro),
            environment: reading_text(environment),
            gpu: reading_text(gpu),
            hostname: reading_text(hostname),
            kernel: reading_text(kernel),
            memory: reading_text(memory),
        }
    }
}

/// Startup configuration: the administrative account to seed.
#[derive(Debug, Clone)]
pub struct Config {
    pub admil_login: String,
    pub admil_password: String,
}

} // verus!
