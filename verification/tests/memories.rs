use agent_core::digest::digest_of;
use agent_core::embedding::EmbeddingIndex;
use agent_core::hydration::{words_of, SourceResult};
use agent_core::json::{parse, Json};
use agent_core::memory::{
    admit_store, admit_update, check_update, embed_text_parts, file_text, memory_file,
    rank_by_name, split_frontmatter, validate_slug, Frontmatter, Hit, Memory, MemoryPayload,
    MemorySource,
};

const RUST_MEMORY: &str = "---\nname: prefers-rust-idioms\ndescription: Ben wants code to match surrounding Rust idioms\nmetadata:\n  type: feedback\n---\n\nMatch comment density and naming of the file you edit.";
const DEPLOY_MEMORY: &str = "---\nname: deploy-runbook\ndescription: production deploy steps for agentd\nmetadata:\n  type: reference\n---\n\nRun the release evals, then push to the deploy branch.";
const CAT_MEMORY: &str =
    "---\nname: cat-care\ndescription: pet routine\n---\n\nthe cat eats at dawn";

/// Counts synonyms, so that a text can be close to another without a word in
/// common.
struct MockEmbedder {
    fail: bool,
    calls: Vec<Vec<String>>,
}

fn mock_vector(text: &str) -> Vec<f32> {
    const AXES: [[&str; 2]; 3] = [["cat", "feline"], ["deploy", "release"], ["rust", "crab"]];
    let lower = text.to_lowercase();
    AXES.iter()
        .map(|synonyms| {
            synonyms.iter().map(|synonym| lower.matches(synonym).count()).sum::<usize>() as f32
        })
        .collect()
}

fn bits(vector: Vec<f32>) -> Vec<u32> {
    vector.into_iter().map(f32::to_bits).collect()
}

impl MockEmbedder {
    fn embed(&mut self, texts: &[String]) -> Option<Vec<Vec<u32>>> {
        self.calls.push(texts.to_vec());
        if self.fail {
            return None;
        }
        Some(texts.iter().map(|text| bits(mock_vector(text))).collect())
    }
}

fn cosine(a: &[u32], b: &[u32]) -> f64 {
    let a: Vec<f32> = a.iter().map(|x| f32::from_bits(*x)).collect();
    let b: Vec<f32> = b.iter().map(|x| f32::from_bits(*x)).collect();
    let dot: f32 = a.iter().zip(&b).map(|(x, y)| x * y).sum();
    let norms = a.iter().map(|x| x * x).sum::<f32>().sqrt()
        * b.iter().map(|x| x * x).sum::<f32>().sqrt();
    if norms == 0.0 {
        0.0
    } else {
        f64::from(dot / norms)
    }
}

/// A directory of memories that is held in memory.
struct Shelf {
    files: Vec<(String, String)>,
    index: Option<EmbeddingIndex>,
    embedder: Option<MockEmbedder>,
}

fn head(yaml: &str) -> Option<Frontmatter> {
    let value: serde_yaml::Value = serde_yaml::from_str(yaml).ok()?;
    let text = |v: Option<&serde_yaml::Value>| v.and_then(|v| v.as_str()).map(str::to_string);
    Some(Frontmatter {
        name: text(value.get("name")),
        description: text(value.get("description")),
        memory_type: text(value.get("metadata").and_then(|m| m.get("type"))),
    })
}

fn written(payload: &MemoryPayload, name: &str) -> String {
    let mut metadata = serde_yaml::Mapping::new();
    if let Some(memory_type) = &payload.memory_type {
        metadata.insert("type".into(), memory_type.as_str().into());
    }
    let mut provenance = serde_yaml::Mapping::new();
    provenance.insert("run_id".into(), "run-test".into());
    provenance.insert("effect_id".into(), "effect-1".into());
    metadata.insert("provenance".into(), serde_yaml::Value::Mapping(provenance));
    let mut front = serde_yaml::Mapping::new();
    front.insert("name".into(), name.into());
    front.insert("description".into(), payload.description.as_str().into());
    front.insert("metadata".into(), serde_yaml::Value::Mapping(metadata));
    file_text(&serde_yaml::to_string(&front).unwrap(), &payload.body)
}

impl Shelf {
    fn new(embedder: Option<MockEmbedder>) -> Shelf {
        Shelf { files: vec![], index: None, embedder }
    }

    fn with(files: &[(&str, &str)], embedder: Option<MockEmbedder>) -> Shelf {
        let files = files.iter().map(|(n, t)| (n.to_string(), t.to_string())).collect();
        Shelf { files, index: None, embedder }
    }

    fn at(&self, file: &str) -> Option<usize> {
        self.files.iter().position(|(name, _)| name == file)
    }

    fn calls(&self) -> &Vec<Vec<String>> {
        &self.embedder.as_ref().unwrap().calls
    }

    fn index_len(&self) -> usize {
        self.index.as_ref().map_or(0, |index| index.entries.len())
    }

    fn memories(&self) -> Vec<Memory> {
        let list: Vec<Memory> = self
            .files
            .iter()
            .map(|(file, raw)| {
                let front = split_frontmatter(raw).0.and_then(|yaml| head(&yaml));
                Memory::parse(raw, front, file.trim_end_matches(".md").to_string())
            })
            .collect();
        let order = rank_by_name(&list);
        let mut slots: Vec<Option<Memory>> = list.into_iter().map(Some).collect();
        order.into_iter().filter_map(|i| slots[i].take()).collect()
    }

    fn hits(&mut self, query: &str, list: &Vec<Memory>) -> Option<Vec<Hit>> {
        let embedder = self.embedder.as_mut()?;
        let had = self.index.is_some();
        let mut index = EmbeddingIndex::of_model(self.index.take(), "mock-embedder");
        let (dirty, found) = match index.begin(query, list) {
            None => (false, None),
            Some(lookup) => {
                let vectors = embedder.embed(&lookup.inputs);
                index.finish(list, lookup, vectors)
            }
        };
        self.index = if dirty || had { Some(index) } else { None };
        let found = found?;
        let words = words_of(query);
        let hit = |m: &Memory| {
            let near = found.near.iter().find(|(name, _)| *name == m.name);
            let similarity = near.map_or(0.0, |(_, v)| cosine(&found.query, v)).clamp(0.0, 1.0);
            let keyword = m.score(&words);
            Hit {
                keyword,
                close: similarity >= 0.30,
                key: u128::from((keyword as f64 + 4.0 * similarity).to_bits()),
            }
        };
        Some(list.iter().map(hit).collect())
    }

    fn retrieve_within(&mut self, query: Option<&str>, max_bytes: Option<usize>) -> SourceResult {
        let list = self.memories();
        let hits = match query {
            Some(q) if !q.trim().is_empty() => self.hits(q, &list),
            _ => None,
        };
        MemorySource::new("memory".to_string()).retrieve(&list, query, hits, max_bytes)
    }

    fn retrieve(&mut self, query: &str) -> SourceResult {
        self.retrieve_within(Some(query), None)
    }

    fn embed(&mut self, name: &str, description: &str, body: &str) {
        let Some(embedder) = &mut self.embedder else {
            return;
        };
        let had = self.index.is_some();
        let mut index = EmbeddingIndex::of_model(self.index.take(), "mock-embedder");
        let mut dirty = false;
        if let Some(text) = index.to_embed(name, description, body) {
            if let Some(vectors) = embedder.embed(std::slice::from_ref(&text)) {
                dirty = index.embedded(name, &text, vectors);
            }
        }
        self.index = if dirty || had { Some(index) } else { None };
    }

    fn store(&mut self, payload: &str) -> Result<String, String> {
        let payload = MemoryPayload::parse(&parse(payload).unwrap()).map_err(|e| e.message())?;
        let slug = payload.slug().map_err(|e| e.message())?;
        let file = memory_file(&slug);
        admit_store(&slug, self.at(&file).is_some()).map_err(|e| e.message())?;
        self.files.push((file, written(&payload, &slug)));
        self.embed(&slug, &payload.description, payload.body.trim());
        Ok(slug)
    }

    fn update(&mut self, id: &str, payload: &str) -> Result<(), String> {
        validate_slug(id).map_err(|e| e.message())?;
        let payload = MemoryPayload::parse(&parse(payload).unwrap()).map_err(|e| e.message())?;
        check_update(id, &payload).map_err(|e| e.message())?;
        let at = self.at(&memory_file(id));
        admit_update(id, at.is_some()).map_err(|e| e.message())?;
        self.files[at.unwrap()].1 = written(&payload, id);
        self.embed(id, &payload.description, payload.body.trim());
        Ok(())
    }

    fn delete(&mut self, id: &str) -> Result<(), String> {
        validate_slug(id).map_err(|e| e.message())?;
        let at = self.at(&memory_file(id)).ok_or_else(|| format!("deleting memory {id:?}"))?;
        self.files.remove(at);
        if self.embedder.is_some() {
            if let Some(index) = &mut self.index {
                index.remove(id);
            }
        }
        Ok(())
    }
}

fn mock() -> Option<MockEmbedder> {
    Some(MockEmbedder { fail: false, calls: vec![] })
}

fn note(name: &str) -> String {
    format!(
        r#"{{"name":"{name}","description":"a test note","type":"project","body":"the fact to keep"}}"#
    )
}

fn cat_note(body: &str) -> String {
    format!(r#"{{"name":"cat-care","description":"feeding schedule","body":"{body}"}}"#)
}

fn named(metadata: &Json) -> Vec<String> {
    let list = metadata.get("memories").unwrap().as_array().unwrap();
    list.iter().map(|v| v.as_str().unwrap().to_string()).collect()
}

fn flag(result: &SourceResult, key: &str) -> bool {
    result.metadata.get(key).unwrap().as_bool().unwrap()
}

#[test]
fn query_ranks_by_keyword_relevance_and_omits_misses() {
    let mut shelf = Shelf::with(&[("rust.md", RUST_MEMORY), ("deploy.md", DEPLOY_MEMORY)], None);
    let result = shelf.retrieve("how should I deploy agentd");
    assert!(result.content.starts_with("### deploy-runbook"));
    assert!(!result.content.contains("prefers-rust-idioms"));
    assert_eq!(named(&result.metadata)[0], "deploy-runbook");
    assert_eq!(
        result.content,
        "### deploy-runbook (reference) \u{2014} production deploy steps for agentd\n\
         Run the release evals, then push to the deploy branch."
    );
}

#[test]
fn empty_query_returns_the_index() {
    let mut shelf = Shelf::with(&[("rust.md", RUST_MEMORY), ("deploy.md", DEPLOY_MEMORY)], None);
    let result = shelf.retrieve_within(None, None);
    assert!(flag(&result, "index_only"));
    assert!(result.content.contains("- deploy-runbook \u{2014} production deploy steps"));
    assert!(result.content.contains("- prefers-rust-idioms"));
    assert!(!result.content.contains("Match comment density"));
    assert_eq!(shelf.retrieve("  ").content, result.content);
}

#[test]
fn byte_cap_limits_rendered_memories_deterministically() {
    let mut shelf = Shelf::with(&[("rust.md", RUST_MEMORY), ("deploy.md", DEPLOY_MEMORY)], None);
    let result = shelf.retrieve_within(Some("agentd deploy rust idioms"), Some(200));
    assert!(result.content.len() <= 200);
    assert_eq!(named(&result.metadata).len(), 1, "only the top-scored memory fits under the cap");
    assert_eq!(result.metadata.get("total").unwrap().to_text(), "2");
}

#[test]
fn missing_directory_is_an_empty_memory_not_an_error() {
    let result = Shelf::new(None).retrieve("anything");
    assert!(result.content.is_empty());
    assert_eq!(result.metadata.get("total").unwrap().to_text(), "0");
}

#[test]
fn malformed_frontmatter_degrades_to_filename_and_body() {
    let files = [
        ("broken.md", "---\n: not yaml ::\n---\n\nthe fact survives"),
        ("plain.md", "no frontmatter at all"),
    ];
    let result = Shelf::with(&files, None).retrieve("fact survives frontmatter");
    assert!(result.content.contains("### broken"));
    assert!(result.content.contains("the fact survives"));
    assert!(result.content.contains("### plain"));
}

#[test]
fn store_then_retrieve_round_trips_with_provenance() {
    let mut shelf = Shelf::new(None);
    assert_eq!(shelf.store(&note("test-note")).unwrap(), "test-note");
    let written = shelf.files[shelf.at("test-note.md").unwrap()].1.clone();
    assert!(written.contains("run_id: run-test"), "{written}");
    assert!(written.contains("effect_id: effect-1"), "{written}");
    let result = shelf.retrieve("fact to keep");
    assert!(result.content.contains("### test-note (project) \u{2014} a test note"));
    assert!(result.content.contains("the fact to keep"));
}

#[test]
fn store_refuses_duplicates_and_update_revises_in_place() {
    let mut shelf = Shelf::new(None);
    let id = shelf.store(&note("twice")).unwrap();
    let err = shelf.store(&note("twice")).unwrap_err();
    assert!(err.contains("already exists"), "{err}");
    let revised = note("twice").replace("the fact to keep", "the revised fact");
    shelf.update(&id, &revised).unwrap();
    let result = shelf.retrieve("revised");
    assert!(result.content.contains("the revised fact"));
    let rename = shelf.update(&id, &note("renamed")).unwrap_err();
    assert!(rename.contains("renames"), "{rename}");
    let missing = shelf.update("ghost", &note("ghost")).unwrap_err();
    assert!(missing.contains("no memory"), "{missing}");
}

#[test]
fn delete_is_hard_and_unrelated_memories_survive() {
    let mut shelf = Shelf::with(&[("keeper.md", RUST_MEMORY)], None);
    let id = shelf.store(&note("goner")).unwrap();
    shelf.delete(&id).unwrap();
    assert!(shelf.at("goner.md").is_none());
    assert!(shelf.at("keeper.md").is_some());
    assert!(shelf.delete(&id).is_err(), "double delete errors");
}

#[test]
fn delete_rejects_path_traversal_ids() {
    let mut shelf = Shelf::with(&[("../victim.md", "do not delete me")], None);
    let err = shelf.delete("../victim").unwrap_err();
    assert!(err.contains("kebab-case"), "{err}");
    assert!(err.contains("\"../victim\""), "{err}");
    assert!(shelf.at("../victim.md").is_some(), "the file outside the memory dir survives");
}

#[test]
fn name_is_optional_and_slugged_from_description() {
    let mut shelf = Shelf::new(None);
    let id = shelf
        .store(r#"{"description":"Deploy Window Rules!","body":"deploys only on tuesdays"}"#)
        .unwrap();
    assert_eq!(id, "deploy-window-rules");
    assert!(shelf.at(&format!("{id}.md")).is_some());
    let again = shelf.store(r#"{"description":"Deploy Window Rules!","body":"x"}"#).unwrap_err();
    assert!(again.contains("already exists"), "{again}");
    assert_eq!(shelf.store(r#"{"body":"Some fact"}"#).unwrap(), "some-fact");
}

#[test]
fn payload_schema_and_slug_are_validated() {
    let mut shelf = Shelf::new(None);
    let bad_schema = shelf.store(r#"{"description":"x"}"#).unwrap_err();
    assert!(bad_schema.contains("name?, description?, type?, body"), "{bad_schema}");
    for bad_name in ["../escape", "Has Spaces", "-lead", "trail-"] {
        let err = shelf.store(&note(bad_name)).unwrap_err();
        assert!(err.contains("kebab-case"), "{bad_name:?} must be rejected: {err}");
    }
}

#[test]
fn store_embeds_incrementally_and_query_reuses_the_vector() {
    let mut shelf = Shelf::new(mock());
    shelf.store(&cat_note("the cat eats at dawn")).unwrap();

    let text = embed_text_parts("cat-care", "feeding schedule", "the cat eats at dawn");
    assert_eq!(shelf.calls(), &vec![vec![text.clone()]]);
    let index = shelf.index.as_ref().unwrap();
    assert_eq!(index.entries.len(), 1);
    assert_eq!(index.vector("cat-care", &digest_of(&text)), Some(&bits(mock_vector(&text))));

    let result = shelf.retrieve("feline");
    assert_eq!(shelf.calls().len(), 2);
    assert_eq!(shelf.calls()[1], vec!["feline".to_string()]);
    assert!(flag(&result, "semantic"));
    assert!(result.content.contains("### cat-care"), "{}", result.content);
}

#[test]
fn update_reembeds_changed_content_and_skips_unchanged() {
    let mut shelf = Shelf::new(mock());
    let id = shelf.store(&cat_note("the cat eats at dawn")).unwrap();
    shelf.update(&id, &cat_note("the cat eats at dusk")).unwrap();
    assert_eq!(shelf.calls().len(), 2, "changed content re-embeds");

    let new_text = embed_text_parts("cat-care", "feeding schedule", "the cat eats at dusk");
    assert_eq!(
        shelf.index.as_ref().unwrap().vector("cat-care", &digest_of(&new_text)),
        Some(&bits(mock_vector(&new_text))),
        "index holds the new content's vector"
    );
    shelf.update(&id, &cat_note("the cat eats at dusk")).unwrap();
    assert_eq!(shelf.calls().len(), 2, "unchanged content is a no-op");
}

#[test]
fn delete_drops_the_vector() {
    let mut shelf = Shelf::new(mock());
    let id = shelf.store(&cat_note("the cat eats at dawn")).unwrap();
    assert_eq!(shelf.index_len(), 1);
    shelf.delete(&id).unwrap();
    assert_eq!(shelf.index_len(), 0);
}

#[test]
fn first_query_lazily_backfills_hand_written_memories() {
    let files = [("rust.md", RUST_MEMORY), ("deploy.md", DEPLOY_MEMORY)];
    let mut shelf = Shelf::with(&files, mock());
    shelf.retrieve("release the deploy");
    assert_eq!(shelf.calls().len(), 1);
    assert_eq!(shelf.calls()[0].len(), 3, "query + 2 backfills: {:?}", shelf.calls()[0]);
    assert_eq!(shelf.calls()[0][0], "release the deploy");
    assert!(shelf.calls()[0][1].starts_with("deploy-runbook\nproduction deploy"));
    assert_eq!(shelf.index_len(), 2);

    shelf.retrieve("release the deploy");
    assert_eq!(shelf.calls()[1].len(), 1, "only the query re-embeds");
}

#[test]
fn blended_score_breaks_keyword_ties_semantically() {
    let files = [
        ("a.md", "---\nname: cat-notes\ndescription: notes about my cat\n---\n\nthe cat purrs"),
        ("b.md", "---\nname: dog-notes\ndescription: notes about my dog\n---\n\nthe dog barks"),
    ];
    let mut shelf = Shelf::with(&files, mock());
    let result = shelf.retrieve("feline notes");
    assert!(flag(&result, "semantic"));
    assert_eq!(named(&result.metadata), vec!["cat-notes", "dog-notes"]);
    assert!(result.content.starts_with("### cat-notes"), "{}", result.content);
}

#[test]
fn semantic_only_match_needs_the_floor_and_misses_stay_omitted() {
    let files = [("cat.md", CAT_MEMORY), ("deploy.md", DEPLOY_MEMORY)];
    let mut shelf = Shelf::with(&files, mock());
    let result = shelf.retrieve("feline");
    assert!(result.content.contains("### cat-care"), "{}", result.content);
    assert!(!result.content.contains("deploy-runbook"), "{}", result.content);
}

#[test]
fn embedder_outage_degrades_every_path_without_erroring() {
    let files = [("rust.md", RUST_MEMORY), ("deploy.md", DEPLOY_MEMORY)];
    let mut shelf = Shelf::with(&files, Some(MockEmbedder { fail: true, calls: vec![] }));
    shelf.store(&cat_note("the cat eats at dawn")).unwrap();
    assert!(shelf.at("cat-care.md").is_some());
    assert_eq!(shelf.index_len(), 0);

    let result = shelf.retrieve("how should I deploy agentd");
    assert!(!flag(&result, "semantic"));
    assert!(result.content.starts_with("### deploy-runbook"));

    shelf.update("cat-care", &cat_note("revised")).unwrap();
    shelf.delete("cat-care").unwrap();
}

#[test]
fn corrupt_or_empty_index_is_rebuilt_not_fatal() {
    let mut shelf = Shelf::with(&[("cat.md", CAT_MEMORY)], mock());
    // An index that cannot be read is no index.
    assert!(parse("{corrupt").is_err());
    shelf.index = None;
    let result = shelf.retrieve("feline");
    assert!(flag(&result, "semantic"));
    assert!(result.content.contains("### cat-care"));
    assert_eq!(shelf.index_len(), 1, "corrupt index was rebuilt in place");

    // Nor is one of another model.
    let other = EmbeddingIndex::of_model(shelf.index.take(), "other-embedder");
    assert_eq!((other.model.as_str(), other.entries.len()), ("other-embedder", 0));
}

#[test]
fn query_prunes_vectors_of_memories_deleted_out_of_band() {
    let mut shelf = Shelf::new(mock());
    shelf.store(&cat_note("the cat eats at dawn")).unwrap();
    shelf.store(&note("keeper")).unwrap();
    let at = shelf.at("cat-care.md").unwrap();
    shelf.files.remove(at);

    shelf.retrieve("keep");
    let index = shelf.index.as_ref().unwrap();
    assert_eq!(index.entries.len(), 1, "dead id pruned on query");
    assert!(index.vector("cat-care", "any").is_none());
}

#[test]
fn empty_memory_dir_with_embedder_never_calls_it() {
    let mut shelf = Shelf::new(mock());
    let result = shelf.retrieve("anything");
    assert!(result.content.is_empty());
    assert!(!flag(&result, "semantic"));
    assert!(shelf.calls().is_empty(), "no memories, no embed call");
}

#[test]
fn no_embedder_is_zero_cost_and_keyword_only() {
    let mut shelf = Shelf::new(None);
    shelf.store(&cat_note("the cat eats at dawn")).unwrap();
    let result = shelf.retrieve("cat");
    assert!(!flag(&result, "semantic"));
    assert!(result.content.contains("### cat-care"));
    assert!(shelf.index.is_none(), "no embedder, no index");
}

#[test]
fn wrong_vector_counts_are_no_answer() {
    let list = Shelf::with(&[("cat.md", CAT_MEMORY)], None).memories();
    let mut index = EmbeddingIndex::new("m".to_string());
    let lookup = index.begin("feline", &list).unwrap();
    assert_eq!(lookup.missing, vec![0]);
    assert!(!lookup.dirty);
    let (dirty, found) = index.finish(&list, lookup, Some(vec![vec![1]]));
    assert!(!dirty && found.is_none() && index.entries.is_empty());

    assert!(!index.embedded("cat-care", "text", vec![]));
    assert!(index.embedded("cat-care", "text", vec![vec![7]]));
    assert_eq!(index.vector("cat-care", &digest_of("text")), Some(&vec![7]));
    assert!(index.vector("cat-care", &digest_of("other")).is_none());
    assert_eq!(index.to_embed("cat-care", "d", "b").as_deref(), Some("cat-care\nd\nb"));
    assert!(index.remove("cat-care"));
    assert!(!index.remove("cat-care"));
}
