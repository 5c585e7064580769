//! Records of the JSON export for game engines: quests, characters and their
//! relationships, and world entities.

use vstd::prelude::*;
use crate::model::{DialogueGraph, EntityCategory, EntityProperty, WorldEntity, strings_view};

verus! {

pub struct ExportedQuest {
    pub name: String,
    pub description: String,
    pub objectives: Vec<ExportedObjective>,
}

pub struct ExportedObjective {
    pub text: String,
    pub optional: bool,
}

pub struct ExportedCharacter {
    pub id: String,
    pub name: String,
    pub portrait: Option<String>,
    pub color: String,
    pub relationships: Vec<ExportedRelationship>,
}

pub struct ExportedRelationship {
    pub name: String,
    pub default_value: i32,
    pub min: i32,
    pub max: i32,
}

pub struct ExportedWorldEntity {
    pub name: String,
    pub category: String,
    pub description: String,
    pub tags: Vec<String>,
    pub properties: Vec<ExportedEntityProperty>,
}

pub struct ExportedEntityProperty {
    pub key: String,
    pub value: String,
}

/// The name of an entity category.
pub open spec fn category_label(c: EntityCategory) -> Seq<char> {
    match c {
        EntityCategory::Item => "Item"@,
        EntityCategory::Location => "Location"@,
        EntityCategory::Lore => "Lore"@,
        EntityCategory::Faction => "Faction"@,
        EntityCategory::Custom => "Custom"@,
    }
}

impl EntityCategory {
    /// The name of the category.
    pub fn label(&self) -> (r: &'static str)
        ensures
            r@ == category_label(*self),
    {
        match self {
            EntityCategory::Item => "Item",
            EntityCategory::Location => "Location",
            EntityCategory::Lore => "Lore",
            EntityCategory::Faction => "Faction",
            EntityCategory::Custom => "Custom",
        }
    }
}

/// A world entity as values: name, category name, description, tags and
/// properties.
pub type ExportedEntityV = (Seq<char>, Seq<char>, Seq<char>, Seq<Seq<char>>, Seq<(Seq<char>, Seq<char>)>);

pub open spec fn exported_entity_view(e: ExportedWorldEntity) -> ExportedEntityV {
    (e.name@, e.category@, e.description@, strings_view(e.tags@),
        e.properties@.map_values(|p: ExportedEntityProperty| (p.key@, p.value@)))
}

/// What an entity of the graph becomes in the export.
pub open spec fn entity_record(e: WorldEntity) -> ExportedEntityV {
    (e.name@, category_label(e.category), e.description@, strings_view(e.tags@),
        e.properties@.map_values(|p: EntityProperty| (p.key@, p.value@)))
}

fn export_entity(e: &WorldEntity) -> (r: ExportedWorldEntity)
    ensures
        exported_entity_view(r) == entity_record(*e),
{
    let tags = crate::copy::copy_strings(&e.tags);
    let mut props: Vec<ExportedEntityProperty> = Vec::new();
    let mut i: usize = 0;
    let ghost target = e.properties@.map_values(|p: EntityProperty| (p.key@, p.value@));
    assert(props@.map_values(|p: ExportedEntityProperty| (p.key@, p.value@)) =~= target.take(0));
    while i < e.properties.len()
        invariant
            i <= e.properties.len(),
            target == e.properties@.map_values(|p: EntityProperty| (p.key@, p.value@)),
            props@.map_values(|p: ExportedEntityProperty| (p.key@, p.value@)) == target.take(i as int),
        decreases e.properties.len() - i,
    {
        let ghost prev = props@;
        props.push(ExportedEntityProperty { key: e.properties[i].key.clone(), value: e.properties[i].value.clone() });
        assert(props@.map_values(|p: ExportedEntityProperty| (p.key@, p.value@))
            =~= prev.map_values(|p: ExportedEntityProperty| (p.key@, p.value@)).push(target[i as int]));
        assert(target.take(i + 1) =~= target.take(i as int).push(target[i as int]));
        i = i + 1;
    }
    assert(target.take(e.properties.len() as int) =~= target);
    let r = ExportedWorldEntity {
        name: e.name.clone(),
        category: crate::text::owned(e.category.label()),
        description: e.description.clone(),
        tags,
        properties: props,
    };
    assert(strings_view(r.tags@) == strings_view(e.tags@));
    r
}

/// The world entities of the graph as export records, in order.
pub fn build_world_entities(graph: &DialogueGraph) -> (r: Vec<ExportedWorldEntity>)
    ensures
        r@.map_values(|x: ExportedWorldEntity| exported_entity_view(x))
            == graph.world_entities@.map_values(|e: WorldEntity| entity_record(e)),
{
    let ghost target = graph.world_entities@.map_values(|e: WorldEntity| entity_record(e));
    let mut out: Vec<ExportedWorldEntity> = Vec::new();
    let mut i: usize = 0;
    assert(out@.map_values(|x: ExportedWorldEntity| exported_entity_view(x)) =~= target.take(0));
    while i < graph.world_entities.len()
        invariant
            i <= graph.world_entities.len(),
            target == graph.world_entities@.map_values(|e: WorldEntity| entity_record(e)),
            out@.map_values(|x: ExportedWorldEntity| exported_entity_view(x)) == target.take(i as int),
        decreases graph.world_entities.len() - i,
    {
        let ghost prev = out@;
        let x = export_entity(&graph.world_entities[i]);
        out.push(x);
        assert(out@.map_values(|x: ExportedWorldEntity| exported_entity_view(x))
            =~= prev.map_values(|x: ExportedWorldEntity| exported_entity_view(x)).push(target[i as int]));
        assert(target.take(i + 1) =~= target.take(i as int).push(target[i as int]));
        i = i + 1;
    }
    assert(target.take(graph.world_entities.len() as int) =~= target);
    out
}

} // verus!
