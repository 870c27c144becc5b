//! Realization of external commands as store mutations.
//!
//! Every "create" kind inserts one new entity with its full component set:
//! identity metadata, display text, classifier tag, and an initial decay
//! state whose half-life is a per-kind constant. The update-by-id kinds are
//! acknowledged but perform no store mutation (the store keeps no index
//! from external identifiers to entities), an inherited limitation kept
//! deliberately.
//!
//! A command identifier that fails to parse as a UUID is not rejected: the
//! nil (zero) identifier is silently substituted, exactly as stated in the
//! contracts below. This leniency is inherited and preserved deliberately.

use vstd::prelude::*;
use vstd::string::StringExecFns;
use vstd::arithmetic::div_mod::{lemma_div_by_multiple, lemma_div_is_ordered, lemma_div_pos_is_pos};
use vstd::arithmetic::mul::{lemma_mul_nonnegative, lemma_mul_upper_bound};
use crate::common::GqlCommand;
use crate::components::{
    AccessScope, BaseEntity, Binding, BindingPoint, Bond, Cardinality, DecayComponent,
    DisplayText, EntityType, Filament, Moment, Motif, Thread, ThreadId, ThreadName, ThreadType,
    Visibility, STRENGTH_CAP, STRENGTH_SCALE,
};
use crate::store::{EntityRecord, EntityStore};

verus! {

/// Relies on uuid::Uuid::new_v4: a fresh random identifier, carried as its
/// 128-bit integer form. The value is random, so nothing is promised of it.
#[verifier::external_body]
fn fresh_uuid() -> u128 {
    uuid::Uuid::new_v4().as_u128()
}

/// The identifier a string denotes under the UUID textual forms, if any;
/// a function of the characters alone. Named for uuid::Uuid::parse_str.
pub uninterp spec fn parsed_uuid(s: Seq<char>) -> Option<u128>;

/// Relies on uuid::Uuid::parse_str: which identifier a string denotes
/// depends on its characters alone; the result carries the name
/// `parsed_uuid`.
#[verifier::external_body]
fn parse_entity_id(s: &String) -> (r: Option<u128>)
    ensures
        r == parsed_uuid(s@),
{
    match uuid::Uuid::parse_str(s.as_str()) {
        Ok(u) => Some(u.as_u128()),
        Err(_) => None,
    }
}

/// The identifier a command field resolves to: the parsed UUID, or the nil
/// (zero) identifier silently substituted on a parse failure.
pub open spec fn nil_or_parsed(s: Seq<char>) -> u128 {
    match parsed_uuid(s) {
        Some(v) => v,
        None => 0,
    }
}

/// Parse an identifier field, substituting nil on failure.
fn resolve_entity_id(s: &String) -> (id: u128)
    ensures
        id == nil_or_parsed(s@),
{
    match parse_entity_id(s) {
        Some(v) => v,
        None => 0,
    }
}

/// A motif's initial strength: the requested value, raised to the decay
/// floor of one tenth, and capped at the representation's ceiling.
pub open spec fn motif_strength(raw: u64) -> u64 {
    if raw < 100_000 {
        100_000
    } else if raw > STRENGTH_CAP {
        STRENGTH_CAP
    } else {
        raw
    }
}

/// A bond's initial strength: the affinity, capped at the representation's
/// ceiling.
pub open spec fn capped_strength(raw: u64) -> u64 {
    if raw > STRENGTH_CAP {
        STRENGTH_CAP
    } else {
        raw
    }
}

/// Identity metadata every freshly created entity carries: a fresh id,
/// creation stamped at `now`, never updated or deleted, private, one view
/// grant, first version.
pub open spec fn base_created(b: BaseEntity, sub_type: Seq<char>, now: u64) -> bool {
    &&& b.id is Some
    &&& b.created_at == Some(now as i64)
    &&& b.updated_at is None
    &&& b.deleted_at is None
    &&& b.component_ids@.len() == 0
    &&& b.sub_type is Some && b.sub_type.unwrap()@ == sub_type
    &&& b.visibility == Visibility::Private
    &&& b.security_level == 0
    &&& b.access_scope@.len() == 1 && b.access_scope@[0] == AccessScope::View
    &&& b.version == 1
    &&& b.parent_version is None
}

/// Fresh identity metadata with a single tag.
pub(crate) fn make_base(first_tag: String, sub_type: String, now: u64) -> (b: BaseEntity)
    requires
        now <= 0x7fff_ffff_ffff_ffff,
    ensures
        base_created(b, sub_type@, now),
        b.tags@.len() == 1,
        b.tags@[0]@ == first_tag@,
{
    let mut tags: Vec<String> = Vec::new();
    tags.push(first_tag);
    let mut access_scope: Vec<AccessScope> = Vec::new();
    access_scope.push(AccessScope::View);
    BaseEntity {
        id: Some(fresh_uuid()),
        org_id: fresh_uuid(),
        owner_id: fresh_uuid(),
        created_at: Some(now as i64),
        updated_at: None,
        deleted_at: None,
        tags,
        component_ids: Vec::new(),
        sub_type: Some(sub_type),
        visibility: Visibility::Private,
        security_level: 0,
        access_scope,
        version: 1,
        parent_version: None,
    }
}

/// What the entity inserted for a create command looks like, field by
/// field; only the randomly drawn identifiers are left open.
pub open spec fn spawned_matches(cmd: GqlCommand, now: u64, e: EntityRecord) -> bool {
    match cmd {
        GqlCommand::CreateMoment { text, thread_id } => {
            &&& e.moment is Some
            &&& e.thread is None && e.filament is None && e.motif is None
            &&& e.bond is None && e.binding is None
            &&& e.entity_type is Some && e.entity_type.unwrap().0@ == "moment"@
            &&& e.display_text is Some && e.display_text.unwrap().0@ == text@
            &&& e.thread_type is None && e.thread_name is None
            &&& e.thread_id is Some && e.thread_id.unwrap().0@ == thread_id@
            &&& e.decay == Some(DecayComponent {
                    strength: STRENGTH_SCALE, half_life: 300, last_update: now })
            &&& {
                let m = e.moment.unwrap();
                &&& base_created(m.base, "moment"@, now)
                &&& m.base.tags@.len() == 1 && m.base.tags@[0]@ == "moment"@
                &&& m.thread_id == nil_or_parsed(thread_id@)
                &&& m.binding_hint is None
                &&& m.binding_id is None
                &&& m.cardinality is None
            }
        },
        GqlCommand::CreateThread { name, thread_type } => {
            &&& e.thread is Some
            &&& e.moment is None && e.filament is None && e.motif is None
            &&& e.bond is None && e.binding is None
            &&& e.entity_type is Some && e.entity_type.unwrap().0@ == "thread"@
            &&& e.display_text is Some && e.display_text.unwrap().0@ == name@
            &&& e.thread_type is Some && e.thread_type.unwrap().0@ == thread_type@
            &&& e.thread_name is None
            &&& e.thread_id is Some && e.thread_id.unwrap().0@ == name@
            &&& e.decay == Some(DecayComponent {
                    strength: STRENGTH_SCALE, half_life: 600, last_update: now })
            &&& {
                let t = e.thread.unwrap();
                &&& base_created(t.base, "thread"@, now)
                &&& t.base.tags@.len() == 1 && t.base.tags@[0]@ == thread_type@
            }
        },
        GqlCommand::CreateFilament { content, thread_name } => {
            &&& e.filament is Some
            &&& e.moment is None && e.thread is None && e.motif is None
            &&& e.bond is None && e.binding is None
            &&& e.entity_type is Some && e.entity_type.unwrap().0@ == "filament"@
            &&& e.display_text is Some && e.display_text.unwrap().0@ == content@
            &&& e.thread_type is None
            &&& e.thread_name is Some && e.thread_name.unwrap().0@ == thread_name@
            &&& e.thread_id is None
            &&& e.decay == Some(DecayComponent {
                    strength: STRENGTH_SCALE, half_life: 45, last_update: now })
            &&& {
                let f = e.filament.unwrap();
                &&& base_created(f.base, "filament"@, now)
                &&& f.base.tags@.len() == 1 && f.base.tags@[0]@ == "filament"@
            }
        },
        GqlCommand::CreateMotif { pattern, strength } => {
            &&& e.motif is Some
            &&& e.moment is None && e.thread is None && e.filament is None
            &&& e.bond is None && e.binding is None
            &&& e.entity_type is Some && e.entity_type.unwrap().0@ == "motif"@
            &&& e.display_text is Some && e.display_text.unwrap().0@ == pattern@
            &&& e.thread_type is None && e.thread_name is None && e.thread_id is None
            &&& e.decay == Some(DecayComponent {
                    strength: motif_strength(strength), half_life: 90, last_update: now })
            &&& {
                let m = e.motif.unwrap();
                &&& base_created(m.base, "motif"@, now)
                &&& m.base.tags@.len() == 1 && m.base.tags@[0]@ == "motif"@
            }
        },
        GqlCommand::CreateBond { thread1, thread2, affinity } => {
            &&& e.bond is Some
            &&& e.moment is None && e.thread is None && e.filament is None
            &&& e.motif is None && e.binding is None
            &&& e.entity_type is Some && e.entity_type.unwrap().0@ == "bond"@
            &&& e.display_text is Some
                && e.display_text.unwrap().0@ == ""@ + thread1@ + " ⟷ "@ + thread2@
            &&& e.thread_type is None && e.thread_name is None && e.thread_id is None
            &&& e.decay == Some(DecayComponent {
                    strength: capped_strength(affinity), half_life: 120, last_update: now })
            &&& {
                let b = e.bond.unwrap();
                &&& base_created(b.base, "bond"@, now)
                &&& b.base.tags@.len() == 3
                &&& b.base.tags@[0]@ == "bond"@
                &&& b.base.tags@[1]@ == thread1@
                &&& b.base.tags@[2]@ == thread2@
                &&& b.affinity_score == affinity
                &&& b.bond_strength == ((affinity * 800_000) / 1_000_000) as u64
                &&& b.component_context@.len() == 0
                &&& b.thread_ids@.len() == 0
            }
        },
        GqlCommand::CreateBinding { moment_id, thread_id } => {
            &&& e.binding is Some
            &&& e.moment is None && e.thread is None && e.filament is None
            &&& e.motif is None && e.bond is None
            &&& e.entity_type is Some && e.entity_type.unwrap().0@ == "binding"@
            &&& e.display_text is Some
                && e.display_text.unwrap().0@ == "Binding "@ + moment_id@ + " → "@ + thread_id@
            &&& e.thread_type is None && e.thread_name is None && e.thread_id is None
            &&& e.decay == Some(DecayComponent {
                    strength: 800_000, half_life: 60, last_update: now })
            &&& {
                let b = e.binding.unwrap();
                &&& base_created(b.base, "binding"@, now)
                &&& b.base.tags@.len() == 1 && b.base.tags@[0]@ == "binding"@
                &&& b.points@.len() == 1
                &&& b.points@[0] == (BindingPoint {
                        thread_id: nil_or_parsed(thread_id@),
                        moment_id: nil_or_parsed(moment_id@),
                        cardinality: Cardinality::Actor,
                    })
                &&& b.thread_ids@.len() == 1
                &&& b.thread_ids@[0] == nil_or_parsed(thread_id@)
            }
        },
        _ => false,
    }
}

/// Realize one command against the store: a create inserts exactly one new
/// entity as `spawned_matches` states; an update-by-id kind leaves the
/// store bit-for-bit unchanged (the caller still receives an affirmative
/// acknowledgment — a documented limitation, not an error path).
pub fn apply_command(store: &mut EntityStore, cmd: &GqlCommand, now: u64)
    requires
        old(store).wf(),
        now <= 0x7fff_ffff_ffff_ffff,
    ensures
        final(store).wf(),
        cmd.is_create() ==> {
            &&& final(store).entities@.len() == old(store).entities@.len() + 1
            &&& final(store).entities@.drop_last() == old(store).entities@
            &&& spawned_matches(*cmd, now, final(store).entities@.last())
        },
        !cmd.is_create() ==> final(store).entities@ == old(store).entities@,
{
    let ghost orig = store.entities@;
    match cmd {
        GqlCommand::CreateMoment { text, thread_id } => {
            let mut e = EntityRecord::empty();
            e.moment = Some(Moment {
                base: make_base("moment".to_owned(), "moment".to_owned(), now),
                thread_id: resolve_entity_id(thread_id),
                author_id: fresh_uuid(),
                binding_hint: None,
                binding_id: None,
                cardinality: None,
            });
            e.entity_type = Some(EntityType("moment".to_owned()));
            e.display_text = Some(DisplayText(text.clone()));
            e.thread_id = Some(ThreadId(thread_id.clone()));
            e.decay = Some(DecayComponent {
                strength: STRENGTH_SCALE, half_life: 300, last_update: now });
            store.spawn(e);
            proof {
                assert(store.entities@.drop_last() =~= orig);
            }
        },
        GqlCommand::CreateThread { name, thread_type } => {
            let mut e = EntityRecord::empty();
            e.thread = Some(Thread {
                base: make_base(thread_type.clone(), "thread".to_owned(), now),
            });
            e.entity_type = Some(EntityType("thread".to_owned()));
            e.display_text = Some(DisplayText(name.clone()));
            e.thread_type = Some(ThreadType(thread_type.clone()));
            e.thread_id = Some(ThreadId(name.clone()));
            e.decay = Some(DecayComponent {
                strength: STRENGTH_SCALE, half_life: 600, last_update: now });
            store.spawn(e);
            proof {
                assert(store.entities@.drop_last() =~= orig);
            }
        },
        GqlCommand::CreateFilament { content, thread_name } => {
            let mut e = EntityRecord::empty();
            e.filament = Some(Filament {
                base: make_base("filament".to_owned(), "filament".to_owned(), now),
            });
            e.entity_type = Some(EntityType("filament".to_owned()));
            e.display_text = Some(DisplayText(content.clone()));
            e.thread_name = Some(ThreadName(thread_name.clone()));
            e.decay = Some(DecayComponent {
                strength: STRENGTH_SCALE, half_life: 45, last_update: now });
            store.spawn(e);
            proof {
                assert(store.entities@.drop_last() =~= orig);
            }
        },
        GqlCommand::CreateMotif { pattern, strength } => {
            let raw = *strength;
            let clamped = if raw < 100_000 {
                100_000
            } else if raw > STRENGTH_CAP {
                STRENGTH_CAP
            } else {
                raw
            };
            let mut e = EntityRecord::empty();
            e.motif = Some(Motif {
                base: make_base("motif".to_owned(), "motif".to_owned(), now),
            });
            e.entity_type = Some(EntityType("motif".to_owned()));
            e.display_text = Some(DisplayText(pattern.clone()));
            e.decay = Some(DecayComponent {
                strength: clamped, half_life: 90, last_update: now });
            store.spawn(e);
            proof {
                assert(store.entities@.drop_last() =~= orig);
            }
        },
        GqlCommand::CreateBond { thread1, thread2, affinity } => {
            let aff = *affinity;
            let capped = if aff > STRENGTH_CAP {
                STRENGTH_CAP
            } else {
                aff
            };
            proof {
                lemma_mul_upper_bound(aff as int, u64::MAX as int, 800_000, 800_000);
                lemma_mul_nonnegative(aff as int, 800_000);
                assert(aff * 800_000 <= aff * 1_000_000) by (nonlinear_arith)
                    requires aff >= 0;
                lemma_div_is_ordered(aff * 800_000, aff * 1_000_000, 1_000_000);
                lemma_div_by_multiple(aff as int, 1_000_000);
                lemma_div_pos_is_pos(aff * 800_000, 1_000_000);
            }
            let bond_wide: u128 = (aff as u128) * 800_000u128 / 1_000_000u128;
            let bond_strength: u64 = bond_wide as u64;
            let mut base = make_base("bond".to_owned(), "bond".to_owned(), now);
            base.tags.push(thread1.clone());
            base.tags.push(thread2.clone());
            let mut display = "".to_owned();
            display.append(thread1.as_str());
            display.append(" ⟷ ");
            display.append(thread2.as_str());
            let mut e = EntityRecord::empty();
            e.bond = Some(Bond {
                base,
                affinity_score: aff,
                bond_strength,
                component_context: Vec::new(),
                thread_ids: Vec::new(),
            });
            e.entity_type = Some(EntityType("bond".to_owned()));
            e.display_text = Some(DisplayText(display));
            e.decay = Some(DecayComponent {
                strength: capped, half_life: 120, last_update: now });
            store.spawn(e);
            proof {
                assert(store.entities@.drop_last() =~= orig);
            }
        },
        GqlCommand::CreateBinding { moment_id, thread_id } => {
            let thread_uuid = resolve_entity_id(thread_id);
            let moment_uuid = resolve_entity_id(moment_id);
            let binding_point = BindingPoint::new(thread_uuid, moment_uuid, Cardinality::Actor);
            let mut points: Vec<BindingPoint> = Vec::new();
            points.push(binding_point);
            let mut thread_ids: Vec<u128> = Vec::new();
            thread_ids.push(thread_uuid);
            let mut display = "Binding ".to_owned();
            display.append(moment_id.as_str());
            display.append(" → ");
            display.append(thread_id.as_str());
            let mut e = EntityRecord::empty();
            e.binding = Some(Binding {
                base: make_base("binding".to_owned(), "binding".to_owned(), now),
                points,
                thread_ids,
            });
            e.entity_type = Some(EntityType("binding".to_owned()));
            e.display_text = Some(DisplayText(display));
            e.decay = Some(DecayComponent {
                strength: 800_000, half_life: 60, last_update: now });
            store.spawn(e);
            proof {
                assert(store.entities@.drop_last() =~= orig);
            }
        },
        GqlCommand::UpdateStrength { .. } => {},
        GqlCommand::UpdateDisplayText { .. } => {},
        GqlCommand::AddEntityTag { .. } => {},
        GqlCommand::SoftDeleteEntity { .. } => {},
    }
}

/// Whether `appended` is exactly what realizing `cmds` in order inserts:
/// one matching entity per create command, nothing for the other kinds.
pub open spec fn commands_realized(
    cmds: Seq<GqlCommand>,
    now: u64,
    appended: Seq<EntityRecord>,
) -> bool
    decreases cmds.len(),
{
    if cmds.len() == 0 {
        appended.len() == 0
    } else if cmds.first().is_create() {
        &&& appended.len() >= 1
        &&& spawned_matches(cmds.first(), now, appended.first())
        &&& commands_realized(cmds.drop_first(), now, appended.drop_first())
    } else {
        commands_realized(cmds.drop_first(), now, appended)
    }
}

/// Extending a realized batch by one more command keeps it realized.
proof fn lemma_commands_realized_snoc(
    cmds: Seq<GqlCommand>,
    now: u64,
    appended: Seq<EntityRecord>,
    cmd: GqlCommand,
    appended2: Seq<EntityRecord>,
)
    requires
        commands_realized(cmds, now, appended),
        cmd.is_create() ==> {
            &&& appended2.len() == appended.len() + 1
            &&& appended2.drop_last() == appended
            &&& spawned_matches(cmd, now, appended2.last())
        },
        !cmd.is_create() ==> appended2 == appended,
    ensures
        commands_realized(cmds.push(cmd), now, appended2),
    decreases cmds.len(),
{
    let cs = cmds.push(cmd);
    assert(cs.len() == cmds.len() + 1);
    if cmds.len() == 0 {
        assert(cs.first() == cmd);
        assert(cs.drop_first() =~= Seq::<GqlCommand>::empty());
        if cmd.is_create() {
            assert(appended2.len() == 1);
            assert(appended2.first() == appended2.last());
            assert(appended2.drop_first() =~= Seq::<EntityRecord>::empty());
            assert(commands_realized(cs.drop_first(), now, appended2.drop_first()));
        } else {
            assert(commands_realized(cs.drop_first(), now, appended2));
        }
        assert(commands_realized(cs, now, appended2));
    } else {
        assert(cs.first() == cmds.first());
        assert(cs.drop_first() =~= cmds.drop_first().push(cmd));
        if cmds.first().is_create() {
            // The first entity stays in place; recurse on the remainder.
            if cmd.is_create() {
                assert(appended2.len() >= 2);
                assert(appended2.first() == appended2.drop_last().first());
                assert(appended2.first() == appended.first());
                assert(appended2.drop_first().len() == appended.drop_first().len() + 1);
                assert(appended2.drop_first().drop_last() =~= appended.drop_first());
                assert(appended2.drop_first().last() == appended2.last());
                lemma_commands_realized_snoc(
                    cmds.drop_first(), now, appended.drop_first(), cmd,
                    appended2.drop_first());
                assert(commands_realized(cs.drop_first(), now, appended2.drop_first()));
            } else {
                lemma_commands_realized_snoc(
                    cmds.drop_first(), now, appended.drop_first(), cmd,
                    appended.drop_first());
                assert(commands_realized(cs.drop_first(), now, appended2.drop_first()));
            }
            assert(spawned_matches(cs.first(), now, appended2.first()));
        } else {
            lemma_commands_realized_snoc(cmds.drop_first(), now, appended, cmd, appended2);
            assert(commands_realized(cs.drop_first(), now, appended2));
        }
        assert(commands_realized(cs, now, appended2));
    }
}

/// Realize a batch of commands in order. Existing entities are bit-for-bit
/// untouched; what is appended is exactly the batch's creations.
pub fn apply_commands(store: &mut EntityStore, cmds: &Vec<GqlCommand>, now: u64)
    requires
        old(store).wf(),
        now <= 0x7fff_ffff_ffff_ffff,
    ensures
        final(store).wf(),
        final(store).entities@.len() >= old(store).entities@.len(),
        final(store).entities@.take(old(store).entities@.len() as int) == old(store).entities@,
        commands_realized(
            cmds@, now,
            final(store).entities@.skip(old(store).entities@.len() as int)),
{
    let ghost orig = store.entities@;
    let ghost base_len = orig.len() as int;
    proof {
        assert(orig.take(base_len) =~= orig);
        assert(orig.skip(base_len) =~= Seq::<EntityRecord>::empty());
        assert(cmds@.take(0) =~= Seq::<GqlCommand>::empty());
    }
    let n = cmds.len();
    for i in 0..n
        invariant
            n == cmds@.len(),
            now <= 0x7fff_ffff_ffff_ffff,
            store.wf(),
            store.entities@.len() >= base_len,
            base_len == orig.len(),
            store.entities@.take(base_len) == orig,
            commands_realized(cmds@.take(i as int), now, store.entities@.skip(base_len)),
    {
        let ghost pre = store.entities@;
        apply_command(store, &cmds[i], now);
        proof {
            assert(cmds@.take(i + 1) =~= cmds@.take(i as int).push(cmds@[i as int]));
            if cmds@[i as int].is_create() {
                assert(store.entities@.drop_last() == pre);
                assert(store.entities@.take(base_len) =~= pre.take(base_len));
                assert(store.entities@.skip(base_len).drop_last() =~= pre.skip(base_len));
                assert(store.entities@.skip(base_len).last() == store.entities@.last());
                lemma_commands_realized_snoc(
                    cmds@.take(i as int), now, pre.skip(base_len), cmds@[i as int],
                    store.entities@.skip(base_len));
            } else {
                lemma_commands_realized_snoc(
                    cmds@.take(i as int), now, pre.skip(base_len), cmds@[i as int],
                    store.entities@.skip(base_len));
            }
        }
    }
    proof {
        assert(cmds@.take(n as int) =~= cmds@);
    }
}

} // verus!
