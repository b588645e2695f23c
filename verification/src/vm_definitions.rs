//! Persisted VM definitions: the checks applied to what was loaded, and the store
//! operations (look up, create, update, delete) on the list of definitions.
use vstd::prelude::*;

use crate::settings::{
    outcome, plain_error, validation_error, windows_paths, CommandError, CommandErrorView,
    DisplayMode,
};
use crate::text::{lemma_trimmed_unchanged, owned, same_text, trimmed};
use crate::vm_config::{
    configuration_check, vm_id_check, NetworkMode, OperatingSystem, VmConfiguration,
};

verus! {

/// The lifecycle status stored beside a configuration.
#[derive(Clone, Copy, Debug, PartialEq, Eq, Structural)]
pub enum VmStatus {
    Stopped,
    Starting,
    Running,
    Stopping,
    Error,
    Unknown,
}

impl Default for VmStatus {
    fn default() -> (s: Self)
        ensures
            s == VmStatus::Stopped,
    {
        VmStatus::Stopped
    }
}

/// A configuration and its stored status.
#[derive(Clone, Debug)]
pub struct VmDefinition {
    pub configuration: VmConfiguration,
    pub status: VmStatus,
}

/// `Option<String>::clone`, with its result stated.
pub fn copy_opt_string(o: &Option<String>) -> (r: Option<String>)
    ensures
        r == *o,
{
    match o {
        Some(s) => Some(s.clone()),
        None => None,
    }
}

impl VmConfiguration {
    /// A copy of this configuration.
    pub fn duplicate(&self) -> (r: VmConfiguration)
        ensures
            r == *self,
    {
        VmConfiguration {
            id: self.id.clone(),
            name: self.name.clone(),
            operating_system: self.operating_system,
            cpu_count: self.cpu_count,
            memory_mi_b: self.memory_mi_b,
            disk_size_gi_b: self.disk_size_gi_b,
            disk_path: copy_opt_string(&self.disk_path),
            iso_path: self.iso_path.clone(),
            network_mode: self.network_mode,
            display_mode: self.display_mode,
            secure_boot_enabled: self.secure_boot_enabled,
            tpm_enabled: self.tpm_enabled,
        }
    }
}

impl VmDefinition {
    /// A copy of this definition.
    pub fn duplicate(&self) -> (r: VmDefinition)
        ensures
            r == *self,
    {
        VmDefinition { configuration: self.configuration.duplicate(), status: self.status }
    }
}

/// The id of a definition.
pub open spec fn id_of(d: VmDefinition) -> Seq<char> {
    d.configuration.id@
}

/// The first definition whose id is `id`.
pub open spec fn lookup(defs: Seq<VmDefinition>, id: Seq<char>) -> Option<VmDefinition>
    decreases defs.len(),
{
    if defs.len() == 0 {
        None
    } else if id_of(defs[0]) == id {
        Some(defs[0])
    } else {
        lookup(defs.drop_first(), id)
    }
}

/// No two definitions share an id.
pub open spec fn ids_distinct(defs: Seq<VmDefinition>) -> bool {
    forall|i: int, j: int|
        0 <= i < defs.len() && 0 <= j < defs.len() && i != j ==> id_of(defs[i]) != id_of(
            defs[j],
        )
}

/// Every definition validates and no two share an id.
pub open spec fn store_valid(defs: Seq<VmDefinition>, windows: bool) -> bool {
    &&& forall|i: int| 0 <= i < defs.len() ==> configuration_check(#[trigger] defs[i].configuration, windows) is Ok
    &&& ids_distinct(defs)
}

pub open spec fn duplicate_ids_error() -> CommandErrorView {
    plain_error("conflict"@, "VM storage contains duplicate definition ids."@)
}

pub open spec fn definition_not_found() -> CommandErrorView {
    plain_error("not_found"@, "The requested VM definition was not found."@)
}

pub open spec fn generated_id_conflict() -> CommandErrorView {
    plain_error("conflict"@, "A VM definition with this generated id already exists."@)
}

/// What [`validate_loaded_definitions`] answers for the first `n` definitions: each in
/// turn must validate, and must not repeat an id seen before it.
pub open spec fn loaded_check(defs: Seq<VmDefinition>, n: nat, windows: bool) -> Result<(), CommandErrorView>
    decreases n,
{
    if n == 0 {
        Ok(())
    } else {
        let earlier = loaded_check(defs, (n - 1) as nat, windows);
        let d = defs[n - 1];
        if earlier is Err {
            earlier
        } else if configuration_check(d.configuration, windows) is Err {
            configuration_check(d.configuration, windows)
        } else if exists|j: int| 0 <= j < n - 1 && id_of(#[trigger] defs[j]) == id_of(d) {
            Err(duplicate_ids_error())
        } else {
            Ok(())
        }
    }
}

/// Checks definitions read back from storage: every configuration must validate, and no
/// id may occur twice. The first failure, in list order, is returned.
pub fn validate_loaded_definitions(definitions: &[VmDefinition]) -> (r: Result<(), CommandError>)
    ensures
        exists|windows: bool|
            outcome(r) == #[trigger] loaded_check(definitions@, definitions@.len(), windows),
{
    let windows = windows_paths();
    let mut i: usize = 0;
    while i < definitions.len()
        invariant
            i <= definitions@.len(),
            loaded_check(definitions@, i as nat, windows) is Ok,
        decreases definitions.len() - i,
    {
        let d = &definitions[i];
        match d.configuration.validate_on(windows) {
            Ok(_) => {},
            Err(e) => {
                proof {
                    lemma_loaded_check_stops(definitions@, (i + 1) as nat, definitions@.len(), windows);
                }
                return Err(e);
            },
        }
        let mut j: usize = 0;
        while j < i
            invariant
                i < definitions@.len(),
                j <= i,
                d.configuration.id@ == id_of(definitions@[i as int]),
                loaded_check(definitions@, i as nat, windows) is Ok,
                configuration_check(definitions@[i as int].configuration, windows) is Ok,
                forall|k: int| 0 <= k < j ==> id_of(#[trigger] definitions@[k]) != id_of(definitions@[i as int]),
            decreases i - j,
        {
            if same_text(definitions[j].configuration.id.as_str(), d.configuration.id.as_str()) {
                assert(id_of(definitions@[j as int]) == id_of(definitions@[i as int]));
                proof {
                    lemma_loaded_check_stops(definitions@, (i + 1) as nat, definitions@.len(), windows);
                }
                return Err(CommandError::conflict("VM storage contains duplicate definition ids."));
            }
            j = j + 1;
        }
        i = i + 1;
    }
    Ok(())
}

/// Once the check of a prefix fails, longer prefixes fail the same way.
proof fn lemma_loaded_check_stops(defs: Seq<VmDefinition>, n: nat, m: nat, windows: bool)
    requires
        n <= m,
    ensures
        loaded_check(defs, n, windows) is Err ==> loaded_check(defs, m, windows) == loaded_check(defs, n, windows),
    decreases m - n,
{
    if n < m {
        lemma_loaded_check_stops(defs, n, (m - 1) as nat, windows);
    }
}

/// A list of definitions passes the load check exactly when every configuration
/// validates and no two definitions share an id.
pub proof fn lemma_loaded_check_iff_store_valid(defs: Seq<VmDefinition>, windows: bool)
    ensures
        loaded_check(defs, defs.len(), windows) is Ok <==> store_valid(defs, windows),
{
    lemma_loaded_prefix(defs, defs.len(), windows);
    assert(defs.subrange(0, defs.len() as int) =~= defs);
}

proof fn lemma_loaded_prefix(defs: Seq<VmDefinition>, n: nat, windows: bool)
    requires
        n <= defs.len(),
    ensures
        loaded_check(defs, n, windows) is Ok <==> store_valid(defs.subrange(0, n as int), windows),
    decreases n,
{
    let p = defs.subrange(0, n as int);
    if n == 0 {
    } else {
        lemma_loaded_prefix(defs, (n - 1) as nat, windows);
        let q = defs.subrange(0, n - 1);
        assert(q =~= p.drop_last());
        if loaded_check(defs, n, windows) is Ok {
            assert forall|i: int| 0 <= i < p.len() implies configuration_check(
                #[trigger] p[i].configuration, windows,
            ) is Ok by {
                if i < n - 1 {
                    assert(p[i] == q[i]);
                }
            }
            assert forall|i: int, j: int|
                0 <= i < p.len() && 0 <= j < p.len() && i != j implies id_of(p[i]) != id_of(
                p[j],
            ) by {
                if i < n - 1 && j < n - 1 {
                    assert(p[i] == q[i] && p[j] == q[j]);
                } else if i == n - 1 {
                    assert(id_of(defs[j]) != id_of(defs[n - 1]));
                } else {
                    assert(id_of(defs[i]) != id_of(defs[n - 1]));
                }
            }
        }
        if store_valid(p, windows) {
            assert forall|i: int| 0 <= i < q.len() implies configuration_check(
                #[trigger] q[i].configuration, windows,
            ) is Ok by {
                assert(q[i] == p[i]);
            }
            assert forall|i: int, j: int|
                0 <= i < q.len() && 0 <= j < q.len() && i != j implies id_of(q[i]) != id_of(
                q[j],
            ) by {
                assert(q[i] == p[i] && q[j] == p[j]);
            }
            assert(configuration_check(p[n - 1].configuration, windows) is Ok);
            if exists|j: int| 0 <= j < n - 1 && id_of(#[trigger] defs[j]) == id_of(defs[n - 1]) {
                let j = choose|j: int| 0 <= j < n - 1 && id_of(#[trigger] defs[j]) == id_of(defs[n - 1]);
                assert(p[j] == defs[j]);
                assert(false);
            }
        }
    }
}

/// Checks a VM id by validating a configuration that differs from a valid one only in
/// its id.
pub fn validate_id(id: &str) -> (r: Result<(), CommandError>)
    ensures
        outcome(r) == vm_id_check(id@),
{
    let configuration = VmConfiguration {
        id: owned(id),
        name: owned("placeholder"),
        operating_system: OperatingSystem::Other,
        cpu_count: 1,
        memory_mi_b: 512,
        disk_size_gi_b: 1,
        disk_path: None,
        iso_path: String::new(),
        network_mode: NetworkMode::Disabled,
        display_mode: DisplayMode::Headless,
        secure_boot_enabled: false,
        tpm_enabled: false,
    };
    proof {
        reveal_strlit("placeholder");
        let name = configuration.name@;
        assert(trim_start_unchanged(name));
        assert(trimmed(configuration.iso_path@) =~= Seq::<char>::empty());
    }
    configuration.validate()
}

spec fn trim_start_unchanged(s: Seq<char>) -> bool {
    trimmed(s) == s
}

/// The index of the first definition whose id is `vm_id`.
pub fn find_definition(definitions: &Vec<VmDefinition>, vm_id: &str) -> (r: Option<usize>)
    ensures
        match r {
            Some(i) => i < definitions@.len() && lookup(definitions@, vm_id@) == Some(
                definitions@[i as int],
            ) && id_of(definitions@[i as int]) == vm_id@ && forall|k: int|
                0 <= k < i ==> id_of(#[trigger] definitions@[k]) != vm_id@,
            None => lookup(definitions@, vm_id@) is None && forall|k: int|
                0 <= k < definitions@.len() ==> id_of(#[trigger] definitions@[k]) != vm_id@,
        },
{
    let mut i: usize = 0;
    assert(definitions@.subrange(0, definitions@.len() as int) =~= definitions@);
    while i < definitions.len()
        invariant
            i <= definitions@.len(),
            forall|k: int| 0 <= k < i ==> id_of(#[trigger] definitions@[k]) != vm_id@,
            lookup(definitions@, vm_id@) == lookup(
                definitions@.subrange(i as int, definitions@.len() as int),
                vm_id@,
            ),
        decreases definitions.len() - i,
    {
        let ghost rest = definitions@.subrange(i as int, definitions@.len() as int);
        assert(rest.drop_first() =~= definitions@.subrange(
            i + 1,
            definitions@.len() as int,
        ));
        assert(rest[0] == definitions@[i as int]);
        if same_text(definitions[i].configuration.id.as_str(), vm_id) {
            return Some(i);
        }
        i = i + 1;
    }
    None
}

/// What looking a definition up answers: an invalid id is refused, an unknown one is
/// not found.
pub open spec fn get_outcome(defs: Seq<VmDefinition>, id: Seq<char>) -> Result<
    VmDefinition,
    CommandErrorView,
> {
    match vm_id_check(id) {
        Err(e) => Err(e),
        Ok(_) => match lookup(defs, id) {
            Some(d) => Ok(d),
            None => Err(definition_not_found()),
        },
    }
}

pub open spec fn definition_result_view(r: Result<VmDefinition, CommandError>) -> Result<
    VmDefinition,
    CommandErrorView,
> {
    match r {
        Ok(d) => Ok(d),
        Err(e) => Err(e@),
    }
}

/// The definition with id `vm_id`.
pub fn get_definition(definitions: &Vec<VmDefinition>, vm_id: &str) -> (r: Result<
    VmDefinition,
    CommandError,
>)
    ensures
        definition_result_view(r) == get_outcome(definitions@, vm_id@),
{
    validate_id(vm_id)?;
    match find_definition(definitions, vm_id) {
        Some(i) => Ok(definitions[i].duplicate()),
        None => Err(CommandError::not_found("The requested VM definition was not found.")),
    }
}

/// `r` and `after` are what adding `configuration` under the id `id` to `before` gives:
/// on success the new definition, appended; otherwise the list unchanged and the first
/// failure of the configuration check, or a conflict if the id is in use.
pub open spec fn add_outcome(
    r: Result<VmDefinition, CommandError>,
    before: Seq<VmDefinition>,
    after: Seq<VmDefinition>,
    configuration: VmConfiguration,
    id: String,
    windows: bool,
) -> bool {
    let c = VmConfiguration { id, ..configuration };
    let added = VmDefinition { configuration: c, status: VmStatus::Stopped };
    match r {
        Ok(d) => {
            &&& configuration_check(c, windows) is Ok
            &&& lookup(before, id@) is None
            &&& d == added
            &&& after == before.push(added)
        },
        Err(e) => {
            &&& after == before
            &&& if configuration_check(c, windows) is Err {
                Err::<(), CommandErrorView>(e@) == configuration_check(c, windows)
            } else {
                lookup(before, id@) is Some && e@ == generated_id_conflict()
            }
        },
    }
}

/// Adds a new definition, with status `Stopped`, for `configuration` under the id `id`.
/// The configuration must validate with that id, and the id must not be in use.
pub fn add_definition(definitions: &mut Vec<VmDefinition>, configuration: VmConfiguration, id: String) -> (r:
    Result<VmDefinition, CommandError>)
    ensures
        exists|windows: bool|
            #[trigger] add_outcome(r, old(definitions)@, final(definitions)@, configuration, id, windows),
{
    add_definition_on(definitions, configuration, id, windows_paths())
}

/// [`add_definition`] where paths follow the Windows rules when `windows`.
fn add_definition_on(
    definitions: &mut Vec<VmDefinition>,
    configuration: VmConfiguration,
    id: String,
    windows: bool,
) -> (r: Result<VmDefinition, CommandError>)
    ensures
        add_outcome(r, old(definitions)@, final(definitions)@, configuration, id, windows),
{
    let mut configuration = configuration;
    configuration.id = id;
    configuration.validate_on(windows)?;
    let definition = VmDefinition { configuration, status: VmStatus::default() };
    match find_definition(definitions, definition.configuration.id.as_str()) {
        Some(_) => {
            return Err(
                CommandError::conflict("A VM definition with this generated id already exists."),
            );
        },
        None => {},
    }
    definitions.push(definition.duplicate());
    Ok(definition)
}

/// `r` and `after` are what updating `before` with `configuration` gives, where paths
/// follow the Windows rules when `windows`.
pub open spec fn update_outcome(
    r: Result<VmDefinition, CommandError>,
    before: Seq<VmDefinition>,
    after: Seq<VmDefinition>,
    configuration: VmConfiguration,
    windows: bool,
) -> bool {
    match r {
        Ok(d) => {
            &&& configuration_check(configuration, windows) is Ok
            &&& exists|i: int|
                0 <= i < before.len() && lookup(before, configuration.id@)
                    == Some(before[i]) && id_of(before[i])
                    == configuration.id@ && (forall|k: int| 0 <= k < i ==> id_of(#[trigger] before[k]) != configuration.id@)
                    && d == (VmDefinition { configuration, status: before[i].status })
                    && after == before.update(i, d)
        },
        Err(e) => {
            &&& after == before
            &&& if configuration_check(configuration, windows) is Err {
                Err::<(), CommandErrorView>(e@) == configuration_check(configuration, windows)
            } else {
                lookup(before, configuration.id@) is None && e@
                    == definition_not_found()
            }
        },
    }
}

/// Replaces the configuration of the definition whose id is `configuration.id`, keeping
/// its status.
pub fn update_definition(definitions: &mut Vec<VmDefinition>, configuration: VmConfiguration) -> (r:
    Result<VmDefinition, CommandError>)
    ensures
        exists|windows: bool|
            #[trigger] update_outcome(r, old(definitions)@, final(definitions)@, configuration, windows),
{
    let windows = windows_paths();
    let r = update_definition_on(definitions, configuration, windows);
    assert(update_outcome(r, old(definitions)@, definitions@, configuration, windows));
    r
}

/// [`update_definition`] where paths follow the Windows rules when `windows`.
fn update_definition_on(
    definitions: &mut Vec<VmDefinition>,
    configuration: VmConfiguration,
    windows: bool,
) -> (r: Result<VmDefinition, CommandError>)
    ensures
        update_outcome(r, old(definitions)@, final(definitions)@, configuration, windows),
{
    configuration.validate_on(windows)?;
    match find_definition(definitions, configuration.id.as_str()) {
        Some(i) => {
            let status = definitions[i].status;
            let updated = VmDefinition { configuration, status };
            let result = updated.duplicate();
            definitions.set(i, updated);
            Ok(result)
        },
        None => Err(CommandError::not_found("The requested VM definition was not found.")),
    }
}

/// 32 lowercase hexadecimal digits.
pub open spec fn is_simple_uuid_text(s: Seq<char>) -> bool {
    &&& s.len() == 32
    &&& forall|i: int|
        0 <= i < 32 ==> (('0' <= #[trigger] s[i] && s[i] <= '9') || ('a' <= s[i] && s[i] <= 'f'))
}

/// The simple text of a version 4 UUID: 32 lowercase hexadecimal digits, of which the
/// 13th is the version `4` and the 17th carries the RFC 4122 variant (`8`, `9`, `a` or
/// `b`).
pub open spec fn is_v4_uuid_text(s: Seq<char>) -> bool {
    &&& is_simple_uuid_text(s)
    &&& s[12] == '4'
    &&& (s[16] == '8' || s[16] == '9' || s[16] == 'a' || s[16] == 'b')
}

/// A version 4 UUID rendered by uuid's `simple()` formatter: `getrandom::fill` supplies
/// 16 random bytes, `uuid::Builder::from_random_bytes` sets the version nibble of byte 6
/// to 4 and the top two bits of byte 8 to `10`, and the `Display` of `Simple` writes the
/// 16 bytes as 32 lowercase hexadecimal digits. `None` when the operating system yields
/// no random bytes (`fill` returns an error). The other digits are random, so nothing is
/// said of which they are.
#[verifier::external_body]
fn random_uuid_text() -> (s: Option<String>)
    ensures
        s matches Some(t) ==> is_v4_uuid_text(t@),
{
    let mut bytes = [0u8; 16];
    match getrandom::fill(&mut bytes) {
        Ok(()) => Some(uuid::Builder::from_random_bytes(bytes).into_uuid().simple().to_string()),
        Err(_) => None,
    }
}

pub open spec fn no_random_id() -> CommandErrorView {
    plain_error("runtime_error"@, "Random bytes for a new VM id are not available."@)
}

/// Creates a definition for `configuration` under a fresh random id `vm-` followed by
/// the simple text of a version 4 UUID, and appends it to `definitions`. When the operating system
/// yields no random bytes, nothing is created and a runtime error is returned.
pub fn create_definition(definitions: &mut Vec<VmDefinition>, configuration: VmConfiguration) -> (r:
    Result<VmDefinition, CommandError>)
    ensures
        ({
            ||| r matches Err(e) && e@ == no_random_id() && final(definitions)@ == old(
                definitions,
            )@
            ||| exists|id: String, windows: bool|
                {
                    &&& id@.len() == 35
                    &&& id@.subrange(0, 3) == "vm-"@
                    &&& is_v4_uuid_text(id@.subrange(3, 35))
                    &&& vm_id_check(id@) is Ok
                    &&& #[trigger] add_outcome(
                        r,
                        old(definitions)@,
                        final(definitions)@,
                        configuration,
                        id,
                        windows,
                    )
                }
        }),
{
    let hex = match random_uuid_text() {
        Some(h) => h,
        None => {
            return Err(CommandError::runtime("Random bytes for a new VM id are not available."));
        },
    };
    let mut id = owned("vm-");
    id.append(hex.as_str());
    proof {
        reveal_strlit("vm-");
        assert(id@.subrange(3, 35) =~= hex@);
        assert(id@.subrange(0, 3) =~= "vm-"@);
        lemma_generated_id_valid(id@);
    }
    let ghost id_value = id;
    let windows = windows_paths();
    let r = add_definition_on(definitions, configuration, id, windows);
    assert(add_outcome(r, old(definitions)@, definitions@, configuration, id_value, windows));
    r
}

/// An id made of `vm-` and 32 hexadecimal digits passes the id rule.
proof fn lemma_generated_id_valid(id: Seq<char>)
    requires
        id.len() == 35,
        id.subrange(0, 3) == "vm-"@,
        is_simple_uuid_text(id.subrange(3, 35)),
    ensures
        vm_id_check(id) is Ok,
{
    reveal_strlit("vm-");
    assert(id[0] == id.subrange(0, 3)[0]);
    assert(id[34] == id.subrange(3, 35)[31]);
    lemma_trimmed_unchanged(id);
    assert forall|i: int| 0 <= i < id.len() implies crate::text::is_ascii_alphanumeric(#[trigger] id[i])
        || id[i] == '-' || id[i] == '_' by {
        if i < 3 {
            assert(id[i] == id.subrange(0, 3)[i]);
        } else {
            assert(id[i] == id.subrange(3, 35)[i - 3]);
        }
    }
}

/// The definitions whose id is not `id`, in order.
pub open spec fn without_id(defs: Seq<VmDefinition>, id: Seq<char>) -> Seq<VmDefinition> {
    defs.filter(|d: VmDefinition| id_of(d) != id)
}

/// Removes every definition whose id is `vm_id`.
pub fn delete_definition(definitions: &mut Vec<VmDefinition>, vm_id: &str) -> (r: Result<
    (),
    CommandError,
>)
    ensures
        match r {
            Ok(_) => {
                &&& vm_id_check(vm_id@) is Ok
                &&& lookup(old(definitions)@, vm_id@) is Some
                &&& final(definitions)@ == without_id(old(definitions)@, vm_id@)
            },
            Err(e) => {
                &&& final(definitions)@ == old(definitions)@
                &&& if vm_id_check(vm_id@) is Err {
                    Err::<(), CommandErrorView>(e@) == vm_id_check(vm_id@)
                } else {
                    lookup(old(definitions)@, vm_id@) is None && e@ == definition_not_found()
                }
            },
        },
{
    validate_id(vm_id)?;
    let original_length = definitions.len();
    let mut kept: Vec<VmDefinition> = Vec::new();
    let ghost pred = |d: VmDefinition| id_of(d) != vm_id@;
    let mut i: usize = 0;
    while i < definitions.len()
        invariant
            i <= definitions@.len(),
            kept@ == definitions@.subrange(0, i as int).filter(pred),
            pred == (|d: VmDefinition| id_of(d) != vm_id@),
        decreases definitions.len() - i,
    {
        reveal(Seq::filter);
        assert(definitions@.subrange(0, i + 1).drop_last() =~= definitions@.subrange(0, i as int));
        if !same_text(definitions[i].configuration.id.as_str(), vm_id) {
            kept.push(definitions[i].duplicate());
        }
        i = i + 1;
    }
    assert(definitions@.subrange(0, definitions@.len() as int) =~= definitions@);
    proof {
        lemma_filter_len_lookup(definitions@, vm_id@);
    }
    if kept.len() == original_length {
        return Err(CommandError::not_found("The requested VM definition was not found."));
    }
    *definitions = kept;
    Ok(())
}

/// Removing the definitions with an id shortens the list exactly when the id is found.
proof fn lemma_filter_len_lookup(defs: Seq<VmDefinition>, id: Seq<char>)
    ensures
        (without_id(defs, id).len() == defs.len()) <==> lookup(defs, id) is None,
        lookup(defs, id) is None ==> without_id(defs, id) == defs,
    decreases defs.len(),
{
    reveal(Seq::filter);
    let pred = |d: VmDefinition| id_of(d) != id;
    if defs.len() == 0 {
    } else {
        lemma_lookup_none_iff(defs, id);
        lemma_lookup_none_iff(defs.drop_last(), id);
        lemma_filter_len_lookup(defs.drop_last(), id);
        defs.drop_last().lemma_filter_len(pred);
        if lookup(defs, id) is None {
            assert(id_of(defs[defs.len() - 1]) != id);
            assert(forall|k: int| 0 <= k < defs.drop_last().len() ==> id_of(#[trigger] defs.drop_last()[k]) != id
                ==> true);
            assert(defs.drop_last().push(defs.last()) =~= defs);
        } else {
            let k = choose|k: int| 0 <= k < defs.len() && id_of(#[trigger] defs[k]) == id;
            if k < defs.len() - 1 {
                assert(defs.drop_last()[k] == defs[k]);
            }
        }
    }
}

/// `lookup` finds nothing exactly when no definition has the id.
pub proof fn lemma_lookup_none_iff(defs: Seq<VmDefinition>, id: Seq<char>)
    ensures
        lookup(defs, id) is None <==> forall|k: int| 0 <= k < defs.len() ==> id_of(#[trigger] defs[k]) != id,
    decreases defs.len(),
{
    if defs.len() > 0 {
        lemma_lookup_none_iff(defs.drop_first(), id);
        assert forall|k: int| 1 <= k < defs.len() implies #[trigger] defs[k] == defs.drop_first()[k - 1] by {}
        if lookup(defs, id) is None {
            assert forall|k: int| 0 <= k < defs.len() implies id_of(#[trigger] defs[k]) != id by {
                if k > 0 {
                    assert(defs[k] == defs.drop_first()[k - 1]);
                }
            }
        }
    }
}


/// Looking up in a list with one more definition at the end.
pub proof fn lemma_lookup_push(defs: Seq<VmDefinition>, d: VmDefinition, id: Seq<char>)
    ensures
        lookup(defs.push(d), id) == (if lookup(defs, id) is Some {
            lookup(defs, id)
        } else if id_of(d) == id {
            Some(d)
        } else {
            None
        }),
    decreases defs.len(),
{
    if defs.len() > 0 {
        assert(defs.push(d).drop_first() =~= defs.drop_first().push(d));
        assert(defs.push(d)[0] == defs[0]);
        lemma_lookup_push(defs.drop_first(), d, id);
    } else {
        assert(defs.push(d)[0] == d);
        assert(defs.push(d).drop_first() =~= Seq::<VmDefinition>::empty());
        assert(lookup(Seq::<VmDefinition>::empty(), id) is None);
        assert(lookup(defs, id) is None);
    }
}

/// Looking up in a list where one definition was replaced: before the first match of
/// `id` nothing changed.
proof fn lemma_lookup_update_first(defs: Seq<VmDefinition>, i: int, d: VmDefinition, id: Seq<char>)
    requires
        0 <= i < defs.len(),
        id_of(defs[i]) == id,
        id_of(d) == id,
        forall|k: int| 0 <= k < i ==> id_of(#[trigger] defs[k]) != id,
    ensures
        lookup(defs.update(i, d), id) == Some(d),
    decreases i,
{
    if i > 0 {
        assert(defs.update(i, d).drop_first() =~= defs.drop_first().update(i - 1, d));
        assert forall|k: int| 0 <= k < i - 1 implies id_of(#[trigger] defs.drop_first()[k]) != id by {
            assert(defs.drop_first()[k] == defs[k + 1]);
        }
        lemma_lookup_update_first(defs.drop_first(), i - 1, d, id);
    }
}

/// Removing the definitions with one id does not change what another id finds.
pub proof fn lemma_lookup_without(defs: Seq<VmDefinition>, removed: Seq<char>, id: Seq<char>)
    ensures
        lookup(without_id(defs, removed), id) == (if id == removed {
            None
        } else {
            lookup(defs, id)
        }),
    decreases defs.len(),
{
    reveal(Seq::filter);
    if defs.len() > 0 {
        let rest = defs.drop_last();
        lemma_lookup_without(rest, removed, id);
        assert(rest.push(defs.last()) =~= defs);
        lemma_lookup_push(rest, defs.last(), id);
        if id_of(defs.last()) != removed {
            lemma_lookup_push(without_id(rest, removed), defs.last(), id);
        }
    }
}

/// Read after add: once a definition was added, looking its id up returns it.
pub proof fn lemma_get_after_add(before: Seq<VmDefinition>, d: VmDefinition, windows: bool)
    requires
        configuration_check(d.configuration, windows) is Ok,
        lookup(before, id_of(d)) is None,
    ensures
        get_outcome(before.push(d), id_of(d)) == Ok::<VmDefinition, CommandErrorView>(d),
{
    lemma_lookup_push(before, d, id_of(d));
}

/// Read after update: once the definition with id `c.id` got the configuration `c`,
/// looking that id up returns `c` with the status it had.
pub proof fn lemma_get_after_update(before: Seq<VmDefinition>, i: int, c: VmConfiguration, windows: bool)
    requires
        0 <= i < before.len(),
        configuration_check(c, windows) is Ok,
        id_of(before[i]) == c.id@,
        forall|k: int| 0 <= k < i ==> id_of(#[trigger] before[k]) != c.id@,
    ensures
        get_outcome(
            before.update(i, VmDefinition { configuration: c, status: before[i].status }),
            c.id@,
        ) == Ok::<VmDefinition, CommandErrorView>(
            VmDefinition { configuration: c, status: before[i].status },
        ),
{
    lemma_lookup_update_first(
        before,
        i,
        VmDefinition { configuration: c, status: before[i].status },
        c.id@,
    );
}

/// Read after delete: once an id was deleted, looking it up is answered `not_found`, and
/// every other id finds what it found before.
pub proof fn lemma_get_after_delete(before: Seq<VmDefinition>, id: Seq<char>, other: Seq<char>)
    requires
        vm_id_check(id) is Ok,
    ensures
        get_outcome(without_id(before, id), id) == Err::<VmDefinition, CommandErrorView>(
            definition_not_found(),
        ),
        other != id ==> get_outcome(without_id(before, id), other) == get_outcome(before, other),
{
    lemma_lookup_without(before, id, id);
    lemma_lookup_without(before, id, other);
}

/// Adding a valid definition under an unused id keeps the store valid.
pub proof fn lemma_add_keeps_store_valid(before: Seq<VmDefinition>, d: VmDefinition, windows: bool)
    requires
        store_valid(before, windows),
        configuration_check(d.configuration, windows) is Ok,
        lookup(before, id_of(d)) is None,
    ensures
        store_valid(before.push(d), windows),
{
    lemma_lookup_none_iff(before, id_of(d));
    let after = before.push(d);
    assert forall|i: int| 0 <= i < after.len() implies configuration_check(
        #[trigger] after[i].configuration, windows,
    ) is Ok by {
        if i < before.len() {
            assert(after[i] == before[i]);
        }
    }
    assert forall|i: int, j: int|
        0 <= i < after.len() && 0 <= j < after.len() && i != j implies id_of(after[i]) != id_of(
        after[j],
    ) by {
        if i < before.len() && j < before.len() {
            assert(after[i] == before[i] && after[j] == before[j]);
        } else if i < before.len() {
            assert(after[i] == before[i]);
        } else {
            assert(after[j] == before[j]);
        }
    }
}

/// Updating a definition with a valid configuration of the same id keeps the store valid.
pub proof fn lemma_update_keeps_store_valid(before: Seq<VmDefinition>, i: int, c: VmConfiguration, windows: bool)
    requires
        store_valid(before, windows),
        0 <= i < before.len(),
        configuration_check(c, windows) is Ok,
        id_of(before[i]) == c.id@,
    ensures
        store_valid(before.update(i, VmDefinition { configuration: c, status: before[i].status }), windows),
{
    let after = before.update(i, VmDefinition { configuration: c, status: before[i].status });
    assert forall|k: int| 0 <= k < after.len() implies configuration_check(
        #[trigger] after[k].configuration, windows,
    ) is Ok by {
        if k != i {
            assert(after[k] == before[k]);
        }
    }
    assert forall|a: int, b: int|
        0 <= a < after.len() && 0 <= b < after.len() && a != b implies id_of(after[a]) != id_of(
        after[b],
    ) by {
        assert(id_of(after[a]) == id_of(before[a]));
        assert(id_of(after[b]) == id_of(before[b]));
    }
}

/// Deleting keeps the store valid.
pub proof fn lemma_delete_keeps_store_valid(before: Seq<VmDefinition>, id: Seq<char>, windows: bool)
    requires
        store_valid(before, windows),
    ensures
        store_valid(without_id(before, id), windows),
    decreases before.len(),
{
    reveal(Seq::filter);
    if before.len() > 0 {
        let rest = before.drop_last();
        assert forall|i: int| 0 <= i < rest.len() implies configuration_check(
            #[trigger] rest[i].configuration, windows,
        ) is Ok by {
            assert(rest[i] == before[i]);
        }
        assert forall|a: int, b: int|
            0 <= a < rest.len() && 0 <= b < rest.len() && a != b implies id_of(rest[a]) != id_of(
            rest[b],
        ) by {
            assert(rest[a] == before[a] && rest[b] == before[b]);
        }
        lemma_delete_keeps_store_valid(rest, id, windows);
        if id_of(before.last()) != id {
            let last = before.last();
            assert forall|k: int| 0 <= k < rest.len() implies id_of(#[trigger] rest[k]) != id_of(last) by {
                assert(rest[k] == before[k]);
            }
            lemma_lookup_none_iff(rest, id_of(last));
            lemma_lookup_without(rest, id, id_of(last));
            lemma_lookup_none_iff(without_id(rest, id), id_of(last));
            lemma_add_keeps_store_valid(without_id(rest, id), last, windows);
        }
    }
}

} // verus!
