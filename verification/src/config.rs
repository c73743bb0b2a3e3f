//! Process-wide configuration: the tray toggle, per-repository enable flags,
//! the conversion policy and the telemetry flag, together with the key/value
//! document format it is persisted in.
//!
//! The document codec is exact: `from_toml` accepts precisely the documents
//! that `to_toml` produces, so saving and reloading a configuration always
//! yields the original value. Reading and writing the file itself is left to
//! the caller.

use vstd::prelude::*;
use crate::text::{contains_seq, contains_str, lemma_consume, lemma_matches_at_concat, match_at,
    matches_at};

verus! {

#[derive(Debug, Clone, Copy, PartialEq, Eq, Structural)]
pub struct UiConfig {
    pub tray_enabled: bool,
}

#[derive(Debug, Clone, Copy, PartialEq, Eq, Structural)]
pub struct FlathubConfig {
    pub beta_enabled: bool,
}

#[derive(Debug, Clone, Copy, PartialEq, Eq, Structural)]
pub struct AurConfig {
    pub enabled: bool,
}

#[derive(Debug, Clone, Copy, PartialEq, Eq, Structural)]
pub struct ReposConfig {
    pub flathub: FlathubConfig,
    pub aur: AurConfig,
}

/// Policy applied to package format conversion. Only `Safe` has defined
/// semantics (the denylist gate); the other variants are declared extension
/// points.
#[derive(Debug, Clone, Copy, PartialEq, Eq, Structural)]
pub enum ConversionPolicy {
    Safe,
    Permissive,
    Strict,
}

#[derive(Debug, Clone, Copy, PartialEq, Eq, Structural)]
pub struct SecurityConfig {
    pub conversion_policy: ConversionPolicy,
}

#[derive(Debug, Clone, Copy, PartialEq, Eq, Structural)]
pub struct TelemetryConfig {
    pub enabled: bool,
}

#[derive(Debug, Clone, Copy, PartialEq, Eq, Structural)]
pub struct Config {
    pub ui: UiConfig,
    pub repos: ReposConfig,
    pub security: SecurityConfig,
    pub telemetry: TelemetryConfig,
}

/// The textual form of a boolean in the configuration document.
pub open spec fn bool_text(b: bool) -> Seq<char> {
    if b {
        "true"@
    } else {
        "false"@
    }
}

/// The textual form of the conversion policy in the configuration document.
pub open spec fn policy_text(p: ConversionPolicy) -> Seq<char> {
    match p {
        ConversionPolicy::Safe => "\"safe\""@,
        ConversionPolicy::Permissive => "\"permissive\""@,
        ConversionPolicy::Strict => "\"strict\""@,
    }
}

/// The persisted document for a configuration value: one table per section,
/// one `key = value` line per field.
pub open spec fn spec_render(c: Config) -> Seq<char> {
    "[ui]\ntray_enabled = "@ + bool_text(c.ui.tray_enabled)
        + "\n\n[repos.flathub]\nbeta_enabled = "@ + bool_text(c.repos.flathub.beta_enabled)
        + "\n\n[repos.aur]\nenabled = "@ + bool_text(c.repos.aur.enabled)
        + "\n\n[security]\nconversion_policy = "@ + policy_text(c.security.conversion_policy)
        + "\n\n[telemetry]\nenabled = "@ + bool_text(c.telemetry.enabled) + "\n"@
}

spec fn seg0() -> Seq<char> {
    "[ui]\ntray_enabled = "@
}

spec fn seg1() -> Seq<char> {
    "\n\n[repos.flathub]\nbeta_enabled = "@
}

spec fn seg2() -> Seq<char> {
    "\n\n[repos.aur]\nenabled = "@
}

spec fn seg3() -> Seq<char> {
    "\n\n[security]\nconversion_policy = "@
}

spec fn seg4() -> Seq<char> {
    "\n\n[telemetry]\nenabled = "@
}

spec fn seg5() -> Seq<char> {
    "\n"@
}

spec fn pos1() -> int {
    seg0().len() as int
}

spec fn pos2(t: bool) -> int {
    pos1() + bool_text(t).len()
}

spec fn pos3(t: bool) -> int {
    pos2(t) + seg1().len()
}

spec fn pos4(t: bool, b: bool) -> int {
    pos3(t) + bool_text(b).len()
}

spec fn pos5(t: bool, b: bool) -> int {
    pos4(t, b) + seg2().len()
}

spec fn pos6(t: bool, b: bool, a: bool) -> int {
    pos5(t, b) + bool_text(a).len()
}

spec fn pos7(t: bool, b: bool, a: bool) -> int {
    pos6(t, b, a) + seg3().len()
}

spec fn pos8(t: bool, b: bool, a: bool, p: ConversionPolicy) -> int {
    pos7(t, b, a) + policy_text(p).len()
}

spec fn pos9(t: bool, b: bool, a: bool, p: ConversionPolicy) -> int {
    pos8(t, b, a, p) + seg4().len()
}

spec fn pos10(t: bool, b: bool, a: bool, p: ConversionPolicy, e: bool) -> int {
    pos9(t, b, a, p) + bool_text(e).len()
}

spec fn doc_len(t: bool, b: bool, a: bool, p: ConversionPolicy, e: bool) -> int {
    pos10(t, b, a, p, e) + seg5().len()
}

/// The head of the rendered document consumed up to the AUR flag.
spec fn head_text(t: bool, b: bool, a: bool) -> Seq<char> {
    seg0() + bool_text(t) + seg1() + bool_text(b) + seg2() + bool_text(a)
}

/// Where each piece of the rendered document stands.
#[verifier::rlimit(60)]
proof fn lemma_render_positions(c: Config, h: Seq<char>)
    requires
        h == spec_render(c),
    ensures
        matches_at(h, seg0(), 0),
        matches_at(h, bool_text(c.ui.tray_enabled), pos1()),
        matches_at(h, seg1(), pos2(c.ui.tray_enabled)),
        matches_at(h, bool_text(c.repos.flathub.beta_enabled), pos3(c.ui.tray_enabled)),
        matches_at(h, seg2(), pos4(c.ui.tray_enabled, c.repos.flathub.beta_enabled)),
        matches_at(
            h,
            bool_text(c.repos.aur.enabled),
            pos5(c.ui.tray_enabled, c.repos.flathub.beta_enabled),
        ),
        matches_at(
            h,
            seg3(),
            pos6(c.ui.tray_enabled, c.repos.flathub.beta_enabled, c.repos.aur.enabled),
        ),
        matches_at(
            h,
            policy_text(c.security.conversion_policy),
            pos7(c.ui.tray_enabled, c.repos.flathub.beta_enabled, c.repos.aur.enabled),
        ),
        matches_at(
            h,
            seg4(),
            pos8(
                c.ui.tray_enabled,
                c.repos.flathub.beta_enabled,
                c.repos.aur.enabled,
                c.security.conversion_policy,
            ),
        ),
        matches_at(
            h,
            bool_text(c.telemetry.enabled),
            pos9(
                c.ui.tray_enabled,
                c.repos.flathub.beta_enabled,
                c.repos.aur.enabled,
                c.security.conversion_policy,
            ),
        ),
        matches_at(
            h,
            seg5(),
            pos10(
                c.ui.tray_enabled,
                c.repos.flathub.beta_enabled,
                c.repos.aur.enabled,
                c.security.conversion_policy,
                c.telemetry.enabled,
            ),
        ),
        h.len() == doc_len(
            c.ui.tray_enabled,
            c.repos.flathub.beta_enabled,
            c.repos.aur.enabled,
            c.security.conversion_policy,
            c.telemetry.enabled,
        ),
{
    let b1 = bool_text(c.ui.tray_enabled);
    let b2 = bool_text(c.repos.flathub.beta_enabled);
    let b3 = bool_text(c.repos.aur.enabled);
    let pt = policy_text(c.security.conversion_policy);
    let b4 = bool_text(c.telemetry.enabled);
    let r10 = seg5();
    let r9 = b4 + r10;
    let r8 = seg4() + r9;
    let r7 = pt + r8;
    let r6 = seg3() + r7;
    let r5 = b3 + r6;
    let r4 = seg2() + r5;
    let r3 = b2 + r4;
    let r2 = seg1() + r3;
    let r1 = b1 + r2;
    let a1 = seg0() + b1;
    let a2 = a1 + seg1();
    let a3 = a2 + b2;
    let a4 = a3 + seg2();
    let a5 = a4 + b3;
    let a6 = a5 + seg3();
    let a7 = a6 + pt;
    let a8 = a7 + seg4();
    let a9 = a8 + b4;
    assert(h == a9 + r10);
    assert(a9 + r10 =~= a8 + r9);
    assert(a8 + r9 =~= a7 + r8);
    assert(a7 + r8 =~= a6 + r7);
    assert(a6 + r7 =~= a5 + r6);
    assert(a5 + r6 =~= a4 + r5);
    assert(a4 + r5 =~= a3 + r4);
    assert(a3 + r4 =~= a2 + r3);
    assert(a2 + r3 =~= a1 + r2);
    assert(a1 + r2 =~= seg0() + r1);
    assert(h == seg0() + r1);
    assert(h.subrange(0, h.len() as int) =~= h);
    lemma_matches_at_concat(h, seg0(), r1, 0);
    lemma_matches_at_concat(h, b1, r2, pos1());
    lemma_matches_at_concat(h, seg1(), r3, pos2(c.ui.tray_enabled));
    lemma_matches_at_concat(h, b2, r4, pos3(c.ui.tray_enabled));
    lemma_matches_at_concat(h, seg2(), r5, pos4(c.ui.tray_enabled, c.repos.flathub.beta_enabled));
    lemma_matches_at_concat(h, b3, r6, pos5(c.ui.tray_enabled, c.repos.flathub.beta_enabled));
    lemma_matches_at_concat(
        h,
        seg3(),
        r7,
        pos6(c.ui.tray_enabled, c.repos.flathub.beta_enabled, c.repos.aur.enabled),
    );
    lemma_matches_at_concat(
        h,
        pt,
        r8,
        pos7(c.ui.tray_enabled, c.repos.flathub.beta_enabled, c.repos.aur.enabled),
    );
    lemma_matches_at_concat(
        h,
        seg4(),
        r9,
        pos8(
            c.ui.tray_enabled,
            c.repos.flathub.beta_enabled,
            c.repos.aur.enabled,
            c.security.conversion_policy,
        ),
    );
    lemma_matches_at_concat(
        h,
        b4,
        r10,
        pos9(
            c.ui.tray_enabled,
            c.repos.flathub.beta_enabled,
            c.repos.aur.enabled,
            c.security.conversion_policy,
        ),
    );
    lemma_matches_at_concat(
        h,
        seg5(),
        Seq::empty(),
        pos10(
            c.ui.tray_enabled,
            c.repos.flathub.beta_enabled,
            c.repos.aur.enabled,
            c.security.conversion_policy,
            c.telemetry.enabled,
        ),
    );
}

/// Two boolean renderings cannot occur at the same position.
proof fn lemma_bool_at_unique(h: Seq<char>, i: int, b1: bool, b2: bool)
    requires
        matches_at(h, bool_text(b1), i),
        matches_at(h, bool_text(b2), i),
    ensures
        b1 == b2,
{
    reveal_strlit("true");
    reveal_strlit("false");
    if b1 != b2 {
        assert(h[i] == bool_text(b1)[0]);
        assert(h[i] == bool_text(b2)[0]);
    }
}

/// Two policy renderings cannot occur at the same position.
proof fn lemma_policy_at_unique(h: Seq<char>, i: int, p1: ConversionPolicy, p2: ConversionPolicy)
    requires
        matches_at(h, policy_text(p1), i),
        matches_at(h, policy_text(p2), i),
    ensures
        p1 == p2,
{
    reveal_strlit("\"safe\"");
    reveal_strlit("\"permissive\"");
    reveal_strlit("\"strict\"");
    if p1 != p2 {
        assert(h[i + 1] == policy_text(p1)[1]);
        assert(h[i + 1] == policy_text(p2)[1]);
        assert(h[i + 2] == policy_text(p1)[2]);
        assert(h[i + 2] == policy_text(p2)[2]);
    }
}

/// When the parsed head flags occur in a rendered document, they agree with
/// the rendered value, and the next pieces stand where parsing continues.
proof fn lemma_head_agrees(h: Seq<char>, c: Config, tray: bool, beta: bool, aur: bool)
    requires
        h == spec_render(c),
        matches_at(h, bool_text(tray), pos1()),
        matches_at(h, bool_text(beta), pos3(tray)),
        matches_at(h, bool_text(aur), pos5(tray, beta)),
    ensures
        c.ui.tray_enabled == tray,
        c.repos.flathub.beta_enabled == beta,
        c.repos.aur.enabled == aur,
        matches_at(h, seg3(), pos6(tray, beta, aur)),
        matches_at(h, policy_text(c.security.conversion_policy), pos7(tray, beta, aur)),
{
    lemma_render_positions(c, h);
    lemma_bool_at_unique(h, pos1(), tray, c.ui.tray_enabled);
    lemma_bool_at_unique(h, pos3(tray), beta, c.repos.flathub.beta_enabled);
    lemma_bool_at_unique(h, pos5(tray, beta), aur, c.repos.aur.enabled);
}

/// Extends the agreement to the parsed policy.
proof fn lemma_policy_agrees(
    h: Seq<char>,
    c: Config,
    tray: bool,
    beta: bool,
    aur: bool,
    policy: ConversionPolicy,
)
    requires
        h == spec_render(c),
        matches_at(h, bool_text(tray), pos1()),
        matches_at(h, bool_text(beta), pos3(tray)),
        matches_at(h, bool_text(aur), pos5(tray, beta)),
        matches_at(h, policy_text(policy), pos7(tray, beta, aur)),
    ensures
        c.ui.tray_enabled == tray,
        c.repos.flathub.beta_enabled == beta,
        c.repos.aur.enabled == aur,
        c.security.conversion_policy == policy,
        matches_at(h, seg4(), pos8(tray, beta, aur, policy)),
        matches_at(h, bool_text(c.telemetry.enabled), pos9(tray, beta, aur, policy)),
{
    lemma_head_agrees(h, c, tray, beta, aur);
    lemma_render_positions(c, h);
    lemma_policy_at_unique(h, pos7(tray, beta, aur), policy, c.security.conversion_policy);
}

/// Extends the agreement to the parsed telemetry flag and the document end.
proof fn lemma_all_agree(
    h: Seq<char>,
    c: Config,
    tray: bool,
    beta: bool,
    aur: bool,
    policy: ConversionPolicy,
    telemetry: bool,
)
    requires
        h == spec_render(c),
        matches_at(h, bool_text(tray), pos1()),
        matches_at(h, bool_text(beta), pos3(tray)),
        matches_at(h, bool_text(aur), pos5(tray, beta)),
        matches_at(h, policy_text(policy), pos7(tray, beta, aur)),
        matches_at(h, bool_text(telemetry), pos9(tray, beta, aur, policy)),
    ensures
        c.ui.tray_enabled == tray,
        c.repos.flathub.beta_enabled == beta,
        c.repos.aur.enabled == aur,
        c.security.conversion_policy == policy,
        c.telemetry.enabled == telemetry,
        matches_at(h, seg5(), pos10(tray, beta, aur, policy, telemetry)),
        h.len() == doc_len(tray, beta, aur, policy, telemetry),
{
    lemma_policy_agrees(h, c, tray, beta, aur, policy);
    lemma_render_positions(c, h);
    lemma_bool_at_unique(h, pos9(tray, beta, aur, policy), telemetry, c.telemetry.enabled);
}

fn bool_str(b: bool) -> (r: &'static str)
    ensures
        r@ == bool_text(b),
{
    if b {
        "true"
    } else {
        "false"
    }
}

fn policy_str(p: ConversionPolicy) -> (r: &'static str)
    ensures
        r@ == policy_text(p),
{
    match p {
        ConversionPolicy::Safe => "\"safe\"",
        ConversionPolicy::Permissive => "\"permissive\"",
        ConversionPolicy::Strict => "\"strict\"",
    }
}

/// Advances past `lit` when it occurs at `i`.
fn expect_lit(s: &str, i: usize, lit: &str) -> (r: Option<usize>)
    ensures
        r matches Some(j) ==> j == i + lit@.len() && matches_at(s@, lit@, i as int),
        r is None ==> !matches_at(s@, lit@, i as int),
{
    if match_at(s, lit, i) {
        let sl = s.unicode_len();
        let pl = lit.unicode_len();
        Some(i + pl)
    } else {
        None
    }
}

/// Reads a boolean value at `i`.
fn parse_bool_at(s: &str, i: usize) -> (r: Option<(bool, usize)>)
    ensures
        r matches Some(p) ==> matches_at(s@, bool_text(p.0), i as int) && p.1 == i + bool_text(
            p.0,
        ).len(),
        r is None ==> forall|b: bool| !matches_at(s@, bool_text(b), i as int),
{
    if let Some(j) = expect_lit(s, i, "true") {
        Some((true, j))
    } else if let Some(j) = expect_lit(s, i, "false") {
        Some((false, j))
    } else {
        None
    }
}

/// Reads a conversion-policy value at `i`.
fn parse_policy_at(s: &str, i: usize) -> (r: Option<(ConversionPolicy, usize)>)
    ensures
        r matches Some(p) ==> matches_at(s@, policy_text(p.0), i as int) && p.1 == i + policy_text(
            p.0,
        ).len(),
        r is None ==> forall|p: ConversionPolicy| !matches_at(s@, policy_text(p), i as int),
{
    if let Some(j) = expect_lit(s, i, "\"safe\"") {
        Some((ConversionPolicy::Safe, j))
    } else if let Some(j) = expect_lit(s, i, "\"permissive\"") {
        Some((ConversionPolicy::Permissive, j))
    } else if let Some(j) = expect_lit(s, i, "\"strict\"") {
        Some((ConversionPolicy::Strict, j))
    } else {
        None
    }
}

/// Reads the first three sections of the document: the tray flag, the
/// Flathub beta flag and the AUR flag, together with the position reached.
#[verifier::rlimit(100)]
fn parse_head(s: &str) -> (r: Option<(bool, bool, bool, usize)>)
    ensures
        r matches Some(p) ==> matches_at(s@, seg0(), 0),
        r matches Some(p) ==> matches_at(s@, bool_text(p.0), pos1()),
        r matches Some(p) ==> matches_at(s@, seg1(), pos2(p.0)),
        r matches Some(p) ==> matches_at(s@, bool_text(p.1), pos3(p.0)),
        r matches Some(p) ==> matches_at(s@, seg2(), pos4(p.0, p.1)),
        r matches Some(p) ==> matches_at(s@, bool_text(p.2), pos5(p.0, p.1)),
        r matches Some(p) ==> p.3 == pos6(p.0, p.1, p.2),
        r matches Some(p) ==> s@.subrange(0, p.3 as int) == head_text(p.0, p.1, p.2),
        r is None ==> forall|c: Config| s@ != spec_render(c),
{
    let j0 = match expect_lit(s, 0, "[ui]\ntray_enabled = ") {
        Some(j) => j,
        None => {
            proof {
                assert forall|c: Config| s@ != spec_render(c) by {
                    if s@ == spec_render(c) {
                        lemma_render_positions(c, s@);
                    }
                }
            }
            return None;
        },
    };
    let (tray, j1) = match parse_bool_at(s, j0) {
        Some(p) => p,
        None => {
            proof {
                assert forall|c: Config| s@ != spec_render(c) by {
                    if s@ == spec_render(c) {
                        lemma_render_positions(c, s@);
                    }
                }
            }
            return None;
        },
    };
    let j2 = match expect_lit(s, j1, "\n\n[repos.flathub]\nbeta_enabled = ") {
        Some(j) => j,
        None => {
            proof {
                assert forall|c: Config| s@ != spec_render(c) by {
                    if s@ == spec_render(c) {
                        lemma_render_positions(c, s@);
                        lemma_bool_at_unique(s@, pos1(), tray, c.ui.tray_enabled);
                    }
                }
            }
            return None;
        },
    };
    let (beta, j3) = match parse_bool_at(s, j2) {
        Some(p) => p,
        None => {
            proof {
                assert forall|c: Config| s@ != spec_render(c) by {
                    if s@ == spec_render(c) {
                        lemma_render_positions(c, s@);
                        lemma_bool_at_unique(s@, pos1(), tray, c.ui.tray_enabled);
                    }
                }
            }
            return None;
        },
    };
    let j4 = match expect_lit(s, j3, "\n\n[repos.aur]\nenabled = ") {
        Some(j) => j,
        None => {
            proof {
                assert forall|c: Config| s@ != spec_render(c) by {
                    if s@ == spec_render(c) {
                        lemma_render_positions(c, s@);
                        lemma_bool_at_unique(s@, pos1(), tray, c.ui.tray_enabled);
                        lemma_bool_at_unique(s@, pos3(tray), beta, c.repos.flathub.beta_enabled);
                    }
                }
            }
            return None;
        },
    };
    let (aur, j5) = match parse_bool_at(s, j4) {
        Some(p) => p,
        None => {
            proof {
                assert forall|c: Config| s@ != spec_render(c) by {
                    if s@ == spec_render(c) {
                        lemma_render_positions(c, s@);
                        lemma_bool_at_unique(s@, pos1(), tray, c.ui.tray_enabled);
                        lemma_bool_at_unique(s@, pos3(tray), beta, c.repos.flathub.beta_enabled);
                    }
                }
            }
            return None;
        },
    };
    proof {
        lemma_consume(s@, seg0(), 0);
        lemma_consume(s@, bool_text(tray), pos1());
        lemma_consume(s@, seg1(), pos2(tray));
        lemma_consume(s@, bool_text(beta), pos3(tray));
        lemma_consume(s@, seg2(), pos4(tray, beta));
        lemma_consume(s@, bool_text(aur), pos5(tray, beta));
        assert(s@.subrange(0, 0) =~= Seq::<char>::empty());
        assert(Seq::<char>::empty() + seg0() =~= seg0());
        assert(s@.subrange(0, j5 as int) == head_text(tray, beta, aur));
    }
    Some((tray, beta, aur, j5))
}

impl Default for Config {
    /// The built-in configuration: tray icon on, Flathub beta on, AUR off,
    /// safe conversion policy, telemetry off.
    fn default() -> (c: Config)
        ensures
            c.ui.tray_enabled == true,
            c.repos.flathub.beta_enabled == true,
            c.repos.aur.enabled == false,
            c.security.conversion_policy == ConversionPolicy::Safe,
            c.telemetry.enabled == false,
    {
        Config::default_with_aur(false)
    }
}

impl Config {
    /// The default configuration with the AUR repository toggle set from the
    /// caller's knowledge of the running system (it is enabled out of the box
    /// only on Arch-family systems).
    pub fn default_with_aur(aur_enabled: bool) -> (c: Config)
        ensures
            c.ui.tray_enabled == true,
            c.repos.flathub.beta_enabled == true,
            c.repos.aur.enabled == aur_enabled,
            c.security.conversion_policy == ConversionPolicy::Safe,
            c.telemetry.enabled == false,
    {
        Config {
            ui: UiConfig { tray_enabled: true },
            repos: ReposConfig {
                flathub: FlathubConfig { beta_enabled: true },
                aur: AurConfig { enabled: aur_enabled },
            },
            security: SecurityConfig { conversion_policy: ConversionPolicy::Safe },
            telemetry: TelemetryConfig { enabled: false },
        }
    }

    /// Whether the release metadata of the running system describes an
    /// Arch-family distribution, which decides the default AUR toggle.
    pub fn is_arch_based(os_release: &str) -> (r: bool)
        ensures
            r == (contains_seq(os_release@, "arch"@) || contains_seq(os_release@, "Arch"@)
                || contains_seq(os_release@, "manjaro"@) || contains_seq(
                os_release@,
                "Manjaro"@,
            )),
    {
        contains_str(os_release, "arch") || contains_str(os_release, "Arch") || contains_str(
            os_release,
            "manjaro",
        ) || contains_str(os_release, "Manjaro")
    }

    /// Renders this configuration as its persisted document.
    pub fn to_toml(&self) -> (r: String)
        ensures
            r@ == spec_render(*self),
    {
        let mut r = String::new();
        r.append("[ui]\ntray_enabled = ");
        r.append(bool_str(self.ui.tray_enabled));
        r.append("\n\n[repos.flathub]\nbeta_enabled = ");
        r.append(bool_str(self.repos.flathub.beta_enabled));
        r.append("\n\n[repos.aur]\nenabled = ");
        r.append(bool_str(self.repos.aur.enabled));
        r.append("\n\n[security]\nconversion_policy = ");
        r.append(policy_str(self.security.conversion_policy));
        r.append("\n\n[telemetry]\nenabled = ");
        r.append(bool_str(self.telemetry.enabled));
        r.append("\n");
        proof {
            assert(r@ =~= spec_render(*self));
        }
        r
    }

    /// Reads a configuration back from its persisted document. This accepts
    /// exactly the documents that `to_toml` writes, and on those it recovers
    /// the rendered value: parsing is the inverse of rendering.
    #[verifier::rlimit(100)]
    pub fn from_toml(s: &str) -> (r: Option<Config>)
        ensures
            r matches Some(c) ==> s@ == spec_render(c),
            forall|c: Config| s@ == spec_render(c) ==> r == Some(c),
    {
        let sl = s.unicode_len();
        let (tray, beta, aur, j5) = match parse_head(s) {
            Some(p) => p,
            None => {
                return None;
            },
        };
        let j6 = match expect_lit(s, j5, "\n\n[security]\nconversion_policy = ") {
            Some(j) => j,
            None => {
                proof {
                    assert forall|c: Config| s@ != spec_render(c) by {
                        if s@ == spec_render(c) {
                            lemma_head_agrees(s@, c, tray, beta, aur);
                        }
                    }
                }
                return None;
            },
        };
        let (policy, j7) = match parse_policy_at(s, j6) {
            Some(p) => p,
            None => {
                proof {
                    assert forall|c: Config| s@ != spec_render(c) by {
                        if s@ == spec_render(c) {
                            lemma_head_agrees(s@, c, tray, beta, aur);
                        }
                    }
                }
                return None;
            },
        };
        let j8 = match expect_lit(s, j7, "\n\n[telemetry]\nenabled = ") {
            Some(j) => j,
            None => {
                proof {
                    assert forall|c: Config| s@ != spec_render(c) by {
                        if s@ == spec_render(c) {
                            lemma_policy_agrees(s@, c, tray, beta, aur, policy);
                        }
                    }
                }
                return None;
            },
        };
        let (telemetry, j9) = match parse_bool_at(s, j8) {
            Some(p) => p,
            None => {
                proof {
                    assert forall|c: Config| s@ != spec_render(c) by {
                        if s@ == spec_render(c) {
                            lemma_policy_agrees(s@, c, tray, beta, aur, policy);
                        }
                    }
                }
                return None;
            },
        };
        let j10 = match expect_lit(s, j9, "\n") {
            Some(j) => j,
            None => {
                proof {
                    assert forall|c: Config| s@ != spec_render(c) by {
                        if s@ == spec_render(c) {
                            lemma_all_agree(s@, c, tray, beta, aur, policy, telemetry);
                        }
                    }
                }
                return None;
            },
        };
        if j10 != sl {
            proof {
                assert forall|c: Config| s@ != spec_render(c) by {
                    if s@ == spec_render(c) {
                        lemma_all_agree(s@, c, tray, beta, aur, policy, telemetry);
                    }
                }
            }
            return None;
        }
        let parsed = Config {
            ui: UiConfig { tray_enabled: tray },
            repos: ReposConfig {
                flathub: FlathubConfig { beta_enabled: beta },
                aur: AurConfig { enabled: aur },
            },
            security: SecurityConfig { conversion_policy: policy },
            telemetry: TelemetryConfig { enabled: telemetry },
        };
        proof {
            // soundness: the consumed pieces cover the whole input, so the
            // input is exactly the rendering of the parsed value
            lemma_consume(s@, seg3(), pos6(tray, beta, aur));
            lemma_consume(s@, policy_text(policy), pos7(tray, beta, aur));
            lemma_consume(s@, seg4(), pos8(tray, beta, aur, policy));
            lemma_consume(s@, bool_text(telemetry), pos9(tray, beta, aur, policy));
            lemma_consume(s@, seg5(), pos10(tray, beta, aur, policy, telemetry));
            assert(s@.subrange(0, j10 as int) =~= s@);
            assert(s@ == spec_render(parsed));
            // completeness: any value that renders to this input parses back
            // to itself
            assert forall|c: Config| s@ == spec_render(c) implies Some(parsed) == Some::<Config>(
                c,
            ) by {
                lemma_all_agree(s@, c, tray, beta, aur, policy, telemetry);
            }
        }
        Some(parsed)
    }
}

} // verus!
