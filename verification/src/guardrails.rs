//! Guardrails: which statements may run, by their kind and by a list of known ones.
use vstd::prelude::*;
use vstd::string::StrSliceExecFns;

use crate::config::holds_text;
use crate::text::{lemma_texts_push, lines, lines_of, same_text, texts, trim, trimmed, utf8_bytes};

verus! {

/// How many known statements there may be.
pub const MAX_ALLOWLIST_ENTRIES: usize = 256;

/// How long a known statement may be, in bytes.
pub const MAX_FINGERPRINT_BYTES: usize = 256;

/// How many statements are counted.
pub const MAX_OBSERVATIONS: usize = 256;

/// How long the list of known statements may be, in bytes.
pub const MAX_ALLOWLIST_BYTES: u64 = 131_072;

/// Whether statements are watched, and whether they are refused.
#[derive(Clone, Copy, Debug, PartialEq, Eq, Structural)]
pub enum GuardrailMode {
    Off,
    Observe,
    Enforce,
}

impl GuardrailMode {
    /// The name under which the value is written.
    pub open spec fn name(self) -> Seq<char> {
        match self {
            GuardrailMode::Off => "off"@,
            GuardrailMode::Observe => "observe"@,
            GuardrailMode::Enforce => "enforce"@,
        }
    }

    /// The name under which the value is written.
    pub fn as_str(self) -> (r: &'static str)
        ensures
            r@ == self.name(),
    {
        match self {
            GuardrailMode::Off => "off",
            GuardrailMode::Observe => "observe",
            GuardrailMode::Enforce => "enforce",
        }
    }

    /// What each value is written as.
    pub proof fn law_written_as(self)
        ensures
            self is Off ==> self.name() == "off"@,
            self is Observe ==> self.name() == "observe"@,
            self is Enforce ==> self.name() == "enforce"@,
    {
    }

    /// No two values have the same name.
    pub proof fn law_names_differ(a: GuardrailMode, b: GuardrailMode)
        requires
            a.name() == b.name(),
        ensures
            a == b,
    {
        reveal_strlit("off");
        reveal_strlit("observe");
        reveal_strlit("enforce");
        assert("off"@.len() == 3 && "off"@[0] == 'o');
        assert("observe"@.len() == 7 && "observe"@[0] == 'o');
        assert("enforce"@.len() == 7 && "enforce"@[0] == 'e');
    }
}

impl Default for GuardrailMode {
    fn default() -> (r: GuardrailMode)
        ensures
            r == GuardrailMode::Off,
    {
        GuardrailMode::Off
    }
}

/// Why a statement is refused.
#[derive(Clone, Copy, Debug, PartialEq, Eq, Structural)]
pub enum GuardrailRule {
    UnqualifiedDml,
    Ddl,
    UnknownFingerprint,
}

impl GuardrailRule {
    /// The name under which the value is written.
    pub open spec fn name(self) -> Seq<char> {
        match self {
            GuardrailRule::UnqualifiedDml => "unqualified_dml"@,
            GuardrailRule::Ddl => "ddl"@,
            GuardrailRule::UnknownFingerprint => "unknown_fingerprint"@,
        }
    }

    /// The name under which the value is written.
    pub fn as_str(self) -> (r: &'static str)
        ensures
            r@ == self.name(),
    {
        match self {
            GuardrailRule::UnqualifiedDml => "unqualified_dml",
            GuardrailRule::Ddl => "ddl",
            GuardrailRule::UnknownFingerprint => "unknown_fingerprint",
        }
    }

    /// What each value is written as.
    pub proof fn law_written_as(self)
        ensures
            self is UnqualifiedDml ==> self.name() == "unqualified_dml"@,
            self is Ddl ==> self.name() == "ddl"@,
            self is UnknownFingerprint ==> self.name() == "unknown_fingerprint"@,
    {
    }

    /// No two values have the same name.
    pub proof fn law_names_differ(a: GuardrailRule, b: GuardrailRule)
        requires
            a.name() == b.name(),
        ensures
            a == b,
    {
        reveal_strlit("unqualified_dml");
        reveal_strlit("ddl");
        reveal_strlit("unknown_fingerprint");
        assert("unqualified_dml"@.len() == 15);
        assert("ddl"@.len() == 3);
        assert("unknown_fingerprint"@.len() == 19);
    }
}

/// Which statements are refused.
#[derive(Clone, Debug, PartialEq, Eq)]
pub struct GuardrailsConfig {
    pub mode: GuardrailMode,
    pub block_unqualified_dml: bool,
    pub block_ddl: bool,
    pub allowlist_file: Option<String>,
}

impl Default for GuardrailsConfig {
    fn default() -> (r: GuardrailsConfig)
        ensures
            r.mode == GuardrailMode::Off,
            !r.block_unqualified_dml,
            !r.block_ddl,
            r.allowlist_file is None,
    {
        GuardrailsConfig {
            mode: GuardrailMode::Off,
            block_unqualified_dml: false,
            block_ddl: false,
            allowlist_file: None,
        }
    }
}

/// Whether a statement may run.
#[derive(Clone, Copy, Debug, PartialEq, Eq, Structural)]
pub enum GuardrailDecision {
    Allow,
    Deny(GuardrailRule),
}

/// What is known of a statement: its fingerprint, and what kind of statement it is.
#[derive(Clone, Debug)]
pub struct StatementFacts {
    pub fingerprint: String,
    pub is_write: bool,
    pub is_unqualified_dml: bool,
    pub is_ddl: bool,
}

/// The list of known statements as it was found: its length, its text and when it was changed.
#[derive(Clone, Debug)]
pub struct AllowlistFile {
    pub bytes: u64,
    pub content: String,
    pub modified: u128,
}

/// The characters with the Unicode category of control characters.
pub open spec fn is_control(c: char) -> bool {
    c <= '\u{1f}' || '\u{7f}' <= c <= '\u{9f}'
}

/// Whether a line can be a fingerprint: short enough, and without control characters.
pub open spec fn is_fingerprint(line: Seq<char>) -> bool {
    utf8_bytes(line).len() <= MAX_FINGERPRINT_BYTES && forall|i: int|
        0 <= i < line.len() ==> !is_control(#[trigger] line[i])
}

/// The known statements of some lines, each once, or the first thing that is wrong with them.
/// Blank lines and lines that begin with `#` count for nothing.
pub open spec fn known_statements(lines: Seq<Seq<char>>) -> Result<Seq<Seq<char>>, Seq<char>>
    decreases lines.len(),
{
    if lines.len() == 0 {
        Ok(Seq::empty())
    } else {
        match known_statements(lines.drop_last()) {
            Err(error) => Err(error),
            Ok(known) => {
                let line = trimmed(lines.last());
                if line.len() == 0 || line[0] == '#' {
                    Ok(known)
                } else if known.len() >= MAX_ALLOWLIST_ENTRIES {
                    Err("guardrail allowlist exceeds 256 entries"@)
                } else if !is_fingerprint(line) {
                    Err("guardrail allowlist contains an invalid fingerprint"@)
                } else if known.contains(line) {
                    Ok(known)
                } else {
                    Ok(known.push(line))
                }
            },
        }
    }
}

/// The known statements of a list, or the first thing that is wrong with it.
pub open spec fn read_allowlist(bytes: u64, content: Seq<char>) -> Result<
    Seq<Seq<char>>,
    Seq<char>,
> {
    if bytes > MAX_ALLOWLIST_BYTES {
        Err("guardrail allowlist exceeds the configured size limit"@)
    } else {
        known_statements(lines_of(content))
    }
}

proof fn lemma_known_error_stays(lines: Seq<Seq<char>>, k: int)
    requires
        0 <= k <= lines.len(),
        known_statements(lines.take(k)) is Err,
    ensures
        known_statements(lines) == known_statements(lines.take(k)),
    decreases lines.len() - k,
{
    if k < lines.len() {
        assert(lines.take(k + 1).drop_last() =~= lines.take(k));
        lemma_known_error_stays(lines, k + 1);
    } else {
        assert(lines.take(k) =~= lines);
    }
}

fn fits_as_fingerprint(line: &str) -> (r: bool)
    ensures
        r == is_fingerprint(line@),
{
    if line.as_bytes().len() > MAX_FINGERPRINT_BYTES {
        return false;
    }
    let chars = crate::text::chars_of(line);
    let mut i: usize = 0;
    while i < chars.len()
        invariant
            i <= chars@.len(),
            chars@ == line@,
            forall|j: int| 0 <= j < i ==> !is_control(#[trigger] line@[j]),
        decreases chars@.len() - i,
    {
        let c = chars[i];
        if c <= '\u{1f}' || ('\u{7f}' <= c && c <= '\u{9f}') {
            assert(is_control(line@[i as int]));
            return false;
        }
        i += 1;
    }
    true
}

/// Reads a list of known statements.
pub fn load_allowlist(bytes: u64, content: &str) -> (r: Result<Vec<String>, String>)
    ensures
        match (r, read_allowlist(bytes, content@)) {
            (Ok(known), Ok(expected)) => texts(known@) == expected,
            (Err(error), Err(expected)) => error@ == expected,
            _ => false,
        },
{
    if bytes > MAX_ALLOWLIST_BYTES {
        return Err("guardrail allowlist exceeds the configured size limit".to_owned());
    }
    let all = lines(content);
    let ghost model = texts(all@);
    let mut known: Vec<String> = Vec::new();
    let mut i: usize = 0;
    assert(model.take(0) =~= Seq::empty());
    assert(texts(known@) =~= Seq::empty());
    while i < all.len()
        invariant
            i <= all@.len(),
            bytes <= MAX_ALLOWLIST_BYTES,
            model == texts(all@),
            model == lines_of(content@),
            known_statements(model.take(i as int)) == Ok::<Seq<Seq<char>>, Seq<char>>(
                texts(known@),
            ),
        decreases all@.len() - i,
    {
        let ghost upto = model.take(i + 1);
        assert(upto.drop_last() =~= model.take(i as int));
        assert(upto.last() == all@[i as int]@);
        assert(texts(known@).len() == known@.len());
        let line = trim(all[i].as_str());
        if !line.as_str().is_empty() && line.as_str().get_char(0) != '#' {
            if known.len() >= MAX_ALLOWLIST_ENTRIES {
                proof {
                    lemma_known_error_stays(model, i + 1);
                }
                return Err("guardrail allowlist exceeds 256 entries".to_owned());
            }
            if !fits_as_fingerprint(line.as_str()) {
                proof {
                    lemma_known_error_stays(model, i + 1);
                }
                return Err("guardrail allowlist contains an invalid fingerprint".to_owned());
            }
            if !holds_text(&known, line.as_str()) {
                proof {
                    lemma_texts_push(known@, line);
                }
                known.push(line);
            }
        }
        i += 1;
    }
    assert(model.take(i as int) =~= model);
    Ok(known)
}

/// A list that is accepted holds no more statements than there may be, each a fingerprint and
/// none twice.
pub proof fn law_allowlist_bounded(lines: Seq<Seq<char>>)
    requires
        known_statements(lines) is Ok,
    ensures
        known_statements(lines)->Ok_0.len() <= MAX_ALLOWLIST_ENTRIES,
        known_statements(lines)->Ok_0.no_duplicates(),
        forall|i: int|
            0 <= i < known_statements(lines)->Ok_0.len() ==> is_fingerprint(
                #[trigger] known_statements(lines)->Ok_0[i],
            ),
    decreases lines.len(),
{
    if lines.len() > 0 {
        law_allowlist_bounded(lines.drop_last());
    }
}

/// Whether a statement may run. Where refusing is off, it may. Otherwise a write without a
/// condition and a change of the schema are refused where they are to be, and then every
/// statement that is not known.
pub open spec fn judged(
    config: GuardrailsConfig,
    known: Seq<Seq<char>>,
    statement: StatementFacts,
) -> GuardrailDecision {
    if config.mode != GuardrailMode::Enforce {
        GuardrailDecision::Allow
    } else if config.block_unqualified_dml && statement.is_write && statement.is_unqualified_dml {
        GuardrailDecision::Deny(GuardrailRule::UnqualifiedDml)
    } else if config.block_ddl && statement.is_ddl {
        GuardrailDecision::Deny(GuardrailRule::Ddl)
    } else if statement.fingerprint@.len() == 0 || !known.contains(statement.fingerprint@) {
        GuardrailDecision::Deny(GuardrailRule::UnknownFingerprint)
    } else {
        GuardrailDecision::Allow
    }
}

/// The counted statements.
pub type Counts = Seq<(Seq<char>, u64)>;

/// Where a statement is counted; the length where it is not.
pub open spec fn count_index(counts: Counts, fingerprint: Seq<char>) -> int
    decreases counts.len(),
{
    if counts.len() == 0 {
        0
    } else if counts[0].0 == fingerprint {
        0
    } else {
        1 + count_index(counts.drop_first(), fingerprint)
    }
}

/// The counts after one more run of a statement. A statement that was not counted yet takes the
/// place of the one that is counted longest, once there are as many as there may be.
pub open spec fn counted(counts: Counts, fingerprint: Seq<char>) -> Counts {
    let at = count_index(counts, fingerprint);
    if 0 <= at < counts.len() {
        counts.update(at, (fingerprint, (counts[at].1 + 1) as u64))
    } else if counts.len() >= MAX_OBSERVATIONS {
        counts.drop_first().push((fingerprint, 1u64))
    } else {
        counts.push((fingerprint, 1u64))
    }
}

/// Guardrails, with what they know and what they have seen.
#[derive(Debug)]
pub struct GuardrailRegistry {
    config: GuardrailsConfig,
    allowlist: Vec<String>,
    observations: Vec<(String, u64)>,
    loaded_mtime: Option<u128>,
}

/// What each counted statement says.
pub open spec fn count_views(observations: Seq<(String, u64)>) -> Counts {
    Seq::new(observations.len(), |i: int| (observations[i].0@, observations[i].1))
}

/// Guardrails as plain values.
pub struct GuardrailFacts {
    pub config: GuardrailsConfig,
    pub known: Seq<Seq<char>>,
    pub counts: Counts,
    pub loaded: Option<u128>,
}

impl View for GuardrailRegistry {
    type V = GuardrailFacts;

    closed spec fn view(&self) -> GuardrailFacts {
        GuardrailFacts {
            config: self.config,
            known: texts(self.allowlist@),
            counts: count_views(self.observations@),
            loaded: self.loaded_mtime,
        }
    }
}

impl GuardrailRegistry {
    /// Guardrails that know the statements of the configured list, if there is one: `file` is what
    /// stands at its path. A list that is configured and was not handed over is an error.
    pub fn from_config(config: GuardrailsConfig, file: Option<AllowlistFile>) -> (r: Result<
        GuardrailRegistry,
        String,
    >)
        ensures
            match (config.allowlist_file, file) {
                (None, _) => r matches Ok(registry) && registry@ == (GuardrailFacts {
                    config,
                    known: Seq::empty(),
                    counts: Seq::empty(),
                    loaded: None,
                }),
                (Some(_), None) => r matches Err(error) && error@
                    == "guardrail allowlist could not be read"@,
                (Some(_), Some(found)) => match read_allowlist(found.bytes, found.content@) {
                    Ok(known) => r matches Ok(registry) && registry@ == (GuardrailFacts {
                        config,
                        known,
                        counts: Seq::empty(),
                        loaded: Some(found.modified),
                    }),
                    Err(expected) => r matches Err(error) && error@ == expected,
                },
            },
            config.allowlist_file is Some && file is None ==> r is Err,
            config.allowlist_file is None ==> r is Ok,
            r matches Ok(registry) ==> registry@.config == config && registry@.counts.len() == 0,
    {
        let mut registry = GuardrailRegistry {
            config,
            allowlist: Vec::new(),
            observations: Vec::new(),
            loaded_mtime: None,
        };
        assert(registry@.known =~= Seq::empty());
        assert(registry@.counts =~= Seq::empty());
        match file {
            Some(found) => match registry.reload_allowlist(&found) {
                Ok(()) => {},
                Err(error) => {
                    return Err(error);
                },
            },
            None => {
                if registry.config.allowlist_file.is_some() {
                    return Err("guardrail allowlist could not be read".to_owned());
                }
            },
        }
        Ok(registry)
    }

    /// Takes over another list of known statements, where a list is configured and the other is
    /// accepted; otherwise the one before stays.
    pub fn reload_allowlist(&mut self, file: &AllowlistFile) -> (r: Result<(), String>)
        ensures
            old(self)@.config.allowlist_file is None ==> r is Ok && final(self)@ == old(self)@,
            old(self)@.config.allowlist_file is Some ==> match read_allowlist(
                file.bytes,
                file.content@,
            ) {
                Ok(known) => r is Ok && final(self)@ == (GuardrailFacts {
                    known,
                    loaded: Some(file.modified),
                    ..old(self)@
                }),
                Err(expected) => (r matches Err(error) && error@ == expected) && final(self)@
                    == old(self)@,
            },
    {
        if self.config.allowlist_file.is_none() {
            return Ok(());
        }
        match load_allowlist(file.bytes, file.content.as_str()) {
            Ok(known) => {
                self.allowlist = known;
                self.loaded_mtime = Some(file.modified);
                Ok(())
            },
            Err(error) => Err(error),
        }
    }

    /// Whether a list of known statements is configured and was changed since it was read.
    pub fn allowlist_changed(&self, modified: u128) -> (r: bool)
        ensures
            r == (self@.config.allowlist_file is Some && self@.loaded != Some(modified)),
            self@.config.allowlist_file is None ==> !r,
            self@.config.allowlist_file is Some ==> (r <==> self@.loaded is None
                || self@.loaded->0 != modified),
    {
        if self.config.allowlist_file.is_none() {
            return false;
        }
        match self.loaded_mtime {
            Some(loaded) => loaded != modified,
            None => true,
        }
    }

    /// How many statements are known.
    pub fn allowlist_len(&self) -> (r: usize)
        ensures
            r == self@.known.len(),
    {
        self.allowlist.len()
    }

    /// How many statements are counted.
    pub fn observation_len(&self) -> (r: usize)
        ensures
            r == self@.counts.len(),
    {
        self.observations.len()
    }

    fn count(&mut self, fingerprint: &str)
        requires
            forall|i: int|
                0 <= i < old(self)@.counts.len() ==> (#[trigger] old(self)@.counts[i]).1
                    < u64::MAX,
        ensures
            final(self)@ == (GuardrailFacts {
                counts: counted(old(self)@.counts, fingerprint@),
                ..old(self)@
            }),
    {
        let ghost counts = self@.counts;
        let mut i: usize = 0;
        assert(counts.skip(0) =~= counts);
        while i < self.observations.len()
            invariant
                i <= self.observations@.len(),
                self@ == old(self)@,
                counts == count_views(self.observations@),
                counts == self@.counts,
                i + count_index(counts.skip(i as int), fingerprint@) == count_index(
                    counts,
                    fingerprint@,
                ),
                forall|k: int| 0 <= k < counts.len() ==> (#[trigger] counts[k]).1 < u64::MAX,
            decreases self.observations@.len() - i,
        {
            let ghost rest = counts.skip(i as int);
            assert(rest[0] == counts[i as int]);
            assert(rest.drop_first() =~= counts.skip(i + 1));
            assert(counts[i as int] == (self.observations@[i as int].0@, self.observations@[i as int].1));
            if same_text(self.observations[i].0.as_str(), fingerprint) {
                let text = self.observations[i].0.clone();
                let count: u64 = self.observations[i].1 + 1;
                self.observations.set(i, (text, count));
                proof {
                    assert(count_views(self.observations@) =~= counts.update(
                        i as int,
                        (fingerprint@, count),
                    ));
                }
                return;
            }
            i += 1;
        }
        assert(counts.skip(i as int) =~= Seq::empty());
        let ghost before = self.observations@;
        if self.observations.len() >= MAX_OBSERVATIONS {
            let _ = self.observations.remove(0);
            self.observations.push((fingerprint.to_owned(), 1));
            assert(count_views(self.observations@) =~= counts.drop_first().push(
                (fingerprint@, 1u64),
            ));
        } else {
            self.observations.push((fingerprint.to_owned(), 1));
            assert(count_views(self.observations@) =~= counts.push((fingerprint@, 1u64)));
        }
    }

    /// Decides whether a statement may run, and counts it unless guardrails are off or it has no
    /// fingerprint.
    pub fn evaluate(&mut self, statement: &StatementFacts) -> (r: GuardrailDecision)
        requires
            forall|i: int|
                0 <= i < old(self)@.counts.len() ==> (#[trigger] old(self)@.counts[i]).1
                    < u64::MAX,
        ensures
            r == judged(old(self)@.config, old(self)@.known, *statement),
            final(self)@ == if old(self)@.config.mode == GuardrailMode::Off
                || statement.fingerprint@.len() == 0 {
                old(self)@
            } else {
                GuardrailFacts {
                    counts: counted(old(self)@.counts, statement.fingerprint@),
                    ..old(self)@
                }
            },
            r is Deny ==> old(self)@.config.mode is Enforce,
            final(self)@.known == old(self)@.known,
            final(self)@.config == old(self)@.config,
    {
        if self.config.mode == GuardrailMode::Off {
            return GuardrailDecision::Allow;
        }
        let unnamed = statement.fingerprint.as_str().is_empty();
        if !unnamed {
            self.count(statement.fingerprint.as_str());
        }
        if self.config.mode != GuardrailMode::Enforce {
            return GuardrailDecision::Allow;
        }
        if self.config.block_unqualified_dml && statement.is_write && statement.is_unqualified_dml {
            return GuardrailDecision::Deny(GuardrailRule::UnqualifiedDml);
        }
        if self.config.block_ddl && statement.is_ddl {
            return GuardrailDecision::Deny(GuardrailRule::Ddl);
        }
        if unnamed || !holds_text(&self.allowlist, statement.fingerprint.as_str()) {
            return GuardrailDecision::Deny(GuardrailRule::UnknownFingerprint);
        }
        GuardrailDecision::Allow
    }
}

/// Nothing is refused while guardrails are off or only watch.
pub proof fn law_only_enforcing_refuses(
    config: GuardrailsConfig,
    known: Seq<Seq<char>>,
    statement: StatementFacts,
)
    requires
        config.mode != GuardrailMode::Enforce,
    ensures
        judged(config, known, statement) == GuardrailDecision::Allow,
{
}

/// What is enforced is refused unless it is known.
pub proof fn law_enforcing_needs_known(
    config: GuardrailsConfig,
    known: Seq<Seq<char>>,
    statement: StatementFacts,
)
    requires
        config.mode == GuardrailMode::Enforce,
        judged(config, known, statement) == GuardrailDecision::Allow,
    ensures
        known.contains(statement.fingerprint@),
        statement.fingerprint@.len() > 0,
{
}

/// What is blocked is refused, whether it is known or not: where refusing is on, every write
/// without a condition where those are blocked, and every other change of the schema where those
/// are.
pub proof fn law_blocked_even_if_known(
    config: GuardrailsConfig,
    known: Seq<Seq<char>>,
    statement: StatementFacts,
)
    requires
        config.mode == GuardrailMode::Enforce,
    ensures
        config.block_unqualified_dml && statement.is_write && statement.is_unqualified_dml
            ==> judged(config, known, statement) == GuardrailDecision::Deny(
            GuardrailRule::UnqualifiedDml,
        ),
        config.block_ddl && statement.is_ddl && !(config.block_unqualified_dml && statement.is_write
            && statement.is_unqualified_dml) ==> judged(config, known, statement)
            == GuardrailDecision::Deny(GuardrailRule::Ddl),
{
}

/// A statement may run exactly where refusing is not on, or where it is known and nothing that it
/// does is blocked.
pub proof fn law_allowed_exactly_where(
    config: GuardrailsConfig,
    known: Seq<Seq<char>>,
    statement: StatementFacts,
)
    ensures
        judged(config, known, statement) == GuardrailDecision::Allow <==> (config.mode
            == GuardrailMode::Off || config.mode == GuardrailMode::Observe || (known.contains(
            statement.fingerprint@,
        ) && statement.fingerprint@ != Seq::<char>::empty() && !(config.block_unqualified_dml
            && statement.is_write && statement.is_unqualified_dml) && !(config.block_ddl
            && statement.is_ddl))),
{
    if statement.fingerprint@.len() == 0 {
        assert(statement.fingerprint@ =~= Seq::<char>::empty());
    }
}

/// What was learnt of a statement tells which rule it broke: each refusal names a rule that is
/// in force and that the statement breaks.
pub proof fn law_refusal_names_its_rule(
    config: GuardrailsConfig,
    known: Seq<Seq<char>>,
    statement: StatementFacts,
)
    ensures
        match judged(config, known, statement) {
            GuardrailDecision::Allow => true,
            GuardrailDecision::Deny(GuardrailRule::UnqualifiedDml) => config.block_unqualified_dml
                && statement.is_write && statement.is_unqualified_dml,
            GuardrailDecision::Deny(GuardrailRule::Ddl) => config.block_ddl && statement.is_ddl,
            GuardrailDecision::Deny(GuardrailRule::UnknownFingerprint) => !known.contains(
                statement.fingerprint@,
            ) || statement.fingerprint@.len() == 0,
        },
{
}

/// Knowing more statements lets more run, and never refuses what ran before.
pub proof fn law_knowing_more_allows_more(
    config: GuardrailsConfig,
    known: Seq<Seq<char>>,
    more: Seq<Seq<char>>,
    statement: StatementFacts,
)
    requires
        forall|text: Seq<char>| known.contains(text) ==> more.contains(text),
        judged(config, known, statement) == GuardrailDecision::Allow,
    ensures
        judged(config, more, statement) == GuardrailDecision::Allow,
{
}

/// How often a statement was counted.
pub open spec fn times_counted(counts: Counts, fingerprint: Seq<char>) -> int {
    let at = count_index(counts, fingerprint);
    if 0 <= at < counts.len() {
        counts[at].1 as int
    } else {
        0
    }
}

proof fn lemma_count_index(counts: Counts, fingerprint: Seq<char>)
    ensures
        0 <= count_index(counts, fingerprint) <= counts.len(),
        forall|i: int|
            0 <= i < count_index(counts, fingerprint) ==> (#[trigger] counts[i]).0 != fingerprint,
        count_index(counts, fingerprint) < counts.len() ==> counts[count_index(
            counts,
            fingerprint,
        )].0 == fingerprint,
    decreases counts.len(),
{
    if counts.len() > 0 && counts[0].0 != fingerprint {
        let rest = counts.drop_first();
        lemma_count_index(rest, fingerprint);
        let at = count_index(counts, fingerprint);
        assert forall|i: int| 0 <= i < at implies (#[trigger] counts[i]).0 != fingerprint by {
            if i > 0 {
                assert(rest[i - 1] == counts[i]);
            }
        }
    }
}

/// The count of a statement is that of the first entry with its text.
proof fn lemma_count_index_is(counts: Counts, fingerprint: Seq<char>, at: int)
    requires
        0 <= at <= counts.len(),
        forall|i: int| 0 <= i < at ==> (#[trigger] counts[i]).0 != fingerprint,
        at < counts.len() ==> counts[at].0 == fingerprint,
    ensures
        count_index(counts, fingerprint) == at,
{
    lemma_count_index(counts, fingerprint);
    let found = count_index(counts, fingerprint);
    if found < at {
        assert(counts[found].0 != fingerprint);
    }
    if at < found {
        assert(counts[at].0 != fingerprint);
    }
}

/// A run of a statement is counted once: its count grows by one, and that of every other
/// statement stays, unless it is the first in a full list, which makes room.
pub proof fn law_each_run_counted_once(counts: Counts, fingerprint: Seq<char>, other: Seq<char>)
    requires
        forall|i: int| 0 <= i < counts.len() ==> (#[trigger] counts[i]).1 < u64::MAX,
    ensures
        times_counted(counted(counts, fingerprint), fingerprint) == times_counted(
            counts,
            fingerprint,
        ) + 1,
        other != fingerprint && (counts.len() < MAX_OBSERVATIONS || times_counted(
            counts,
            fingerprint,
        ) > 0) ==> times_counted(counted(counts, fingerprint), other) == times_counted(
            counts,
            other,
        ),
{
    let next = counted(counts, fingerprint);
    let at = count_index(counts, fingerprint);
    lemma_count_index(counts, fingerprint);
    lemma_count_index(counts, other);
    let place = count_index(counts, other);
    if at < counts.len() {
        assert(forall|i: int| 0 <= i < at ==> (#[trigger] next[i]) == counts[i]);
        lemma_count_index_is(next, fingerprint, at);
        if other != fingerprint {
            assert forall|i: int| 0 <= i < place implies (#[trigger] next[i]).0 != other by {
                assert(counts[i].0 != other);
            }
            lemma_count_index_is(next, other, place);
        }
    } else if counts.len() >= MAX_OBSERVATIONS {
        let rest = counts.drop_first();
        assert forall|i: int| 0 <= i < rest.len() implies (#[trigger] next[i]).0
            != fingerprint by {
            assert(next[i] == counts[i + 1]);
        }
        lemma_count_index_is(next, fingerprint, rest.len() as int);
    } else {
        assert forall|i: int| 0 <= i < counts.len() implies (#[trigger] next[i]).0
            != fingerprint by {
            assert(next[i] == counts[i]);
        }
        lemma_count_index_is(next, fingerprint, counts.len() as int);
        if other != fingerprint {
            if place < counts.len() {
                assert(forall|i: int| 0 <= i < counts.len() ==> (#[trigger] next[i]) == counts[i]);
                lemma_count_index_is(next, other, place);
            } else {
                assert forall|i: int| 0 <= i < next.len() implies (#[trigger] next[i]).0
                    != other by {
                    if i < counts.len() {
                        assert(next[i] == counts[i]);
                    }
                }
                lemma_count_index_is(next, other, next.len() as int);
            }
        }
    }
}

/// No more statements are counted than there may be.
pub proof fn law_counts_bounded(counts: Counts, fingerprint: Seq<char>)
    requires
        counts.len() <= MAX_OBSERVATIONS,
    ensures
        counted(counts, fingerprint).len() <= MAX_OBSERVATIONS,
{
}

/// A list of known statements is taken line by line: a line that is not blank and no comment is a
/// statement, kept once, where it is short, without control characters and not one too many.
pub proof fn law_allowlist_by_line(
    lines: Seq<Seq<char>>,
    known: Seq<Seq<char>>,
    next: Seq<char>,
)
    requires
        known_statements(lines) == Ok::<Seq<Seq<char>>, Seq<char>>(known),
    ensures
        ({
            let line = trimmed(next);
            let read = known_statements(lines.push(next));
            let counts = line.len() > 0 && line[0] != '#';
            let fits = known.len() < 256 && utf8_bytes(line).len() <= 256 && forall|i: int|
                0 <= i < line.len() ==> '\u{1f}' < #[trigger] line[i] && !('\u{7f}' <= line[i]
                    <= '\u{9f}');
            &&& !counts ==> read == Ok::<Seq<Seq<char>>, Seq<char>>(known)
            &&& counts && fits && !known.contains(line) ==> read == Ok::<Seq<Seq<char>>, Seq<char>>(
                known.push(line),
            )
            &&& counts && fits && known.contains(line) ==> read == Ok::<Seq<Seq<char>>, Seq<char>>(
                known,
            )
            &&& counts && !fits ==> read is Err
        }),
        known_statements(Seq::empty()) == Ok::<Seq<Seq<char>>, Seq<char>>(Seq::empty()),
{
    assert(lines.push(next).drop_last() =~= lines);
    let line = trimmed(next);
    assert(is_fingerprint(line) <==> utf8_bytes(line).len() <= 256 && forall|i: int|
        0 <= i < line.len() ==> '\u{1f}' < #[trigger] line[i] && !('\u{7f}' <= line[i]
            <= '\u{9f}')) by {
        if is_fingerprint(line) {
            assert forall|i: int| 0 <= i < line.len() implies '\u{1f}' < #[trigger] line[i] && !(
            '\u{7f}' <= line[i] <= '\u{9f}') by {
                assert(!is_control(line[i]));
            }
        }
    }
}

/// A list that is too large is not read at all.
pub proof fn law_large_allowlist_refused(bytes: u64, content: Seq<char>)
    ensures
        bytes > 131_072 ==> read_allowlist(bytes, content) is Err,
        bytes <= 131_072 ==> read_allowlist(bytes, content) == known_statements(lines_of(content)),
{
}

} // verus!
