use lance_support::jni_cache::{
    JniCache, JniCacheInit, JniHandle, JniInitError, JniLookup, JniOutcome,
};

type Init = JniCacheInit<String, String, String>;

fn describe(init: &Init, lookup: &JniLookup) -> String {
    match lookup {
        JniLookup::Class { name } => name.to_string(),
        JniLookup::Method { name, signature } => {
            format!("{}.{}{}", init.current_class().unwrap(), name, signature)
        }
        JniLookup::StaticMethod { name, signature } => {
            format!("{}::{}{}", init.current_class().unwrap(), name, signature)
        }
    }
}

fn find(lookup: &JniLookup, handle: String) -> JniHandle<String, String, String> {
    match lookup {
        JniLookup::Class { .. } => JniHandle::Class(handle),
        JniLookup::Method { .. } => JniHandle::Method(handle),
        JniLookup::StaticMethod { .. } => JniHandle::StaticMethod(handle),
    }
}

/// Answers lookups, of which the one at `failing` fails. Returns the lookups made.
fn drive(
    failing: Option<usize>,
) -> (
    Vec<String>,
    Result<JniCache<String, String, String>, JniInitError<usize>>,
) {
    let mut made = vec![];
    let mut init: Init = JniCache::init();
    while let Some(lookup) = init.next_lookup() {
        let text = describe(&init, &lookup);
        let outcome = if Some(made.len()) == failing {
            JniOutcome::Failed(made.len())
        } else {
            JniOutcome::Found(find(&lookup, text.clone()))
        };
        made.push(text);
        init = match init.record(outcome) {
            Ok(next) => next,
            Err(e) => return (made, Err(e)),
        };
    }
    (made, Ok(init.finish().unwrap()))
}

#[test]
fn lookups_fill_the_fields() {
    let (made, cache) = drive(None);
    let cache = cache.unwrap();
    assert_eq!(made.len(), 16);
    assert_eq!(cache.long_class, "java/lang/Long");
    assert_eq!(cache.long_ctor, "java/lang/Long.<init>(J)V");
    assert_eq!(cache.double_class, "java/lang/Double");
    assert_eq!(cache.double_ctor, "java/lang/Double.<init>(D)V");
    assert_eq!(cache.boolean_class, "java/lang/Boolean");
    assert_eq!(cache.boolean_ctor, "java/lang/Boolean.<init>(Z)V");
    assert_eq!(cache.float_class, "java/lang/Float");
    assert_eq!(cache.float_ctor, "java/lang/Float.<init>(F)V");
    assert_eq!(cache.array_list_class, "java/util/ArrayList");
    assert_eq!(cache.array_list_ctor, "java/util/ArrayList.<init>()V");
    assert_eq!(
        cache.array_list_add,
        "java/util/ArrayList.add(Ljava/lang/Object;)Z"
    );
    assert_eq!(cache.hash_map_class, "java/util/HashMap");
    assert_eq!(cache.hash_map_ctor, "java/util/HashMap.<init>()V");
    assert_eq!(
        cache.hash_map_put,
        "java/util/HashMap.put(Ljava/lang/Object;Ljava/lang/Object;)Ljava/lang/Object;"
    );
    assert_eq!(cache.optional_class, "java/util/Optional");
    assert_eq!(
        cache.optional_of_nullable,
        "java/util/Optional::ofNullable(Ljava/lang/Object;)Ljava/util/Optional;"
    );
    assert_eq!(JniCache::get(Some(&cache)).long_class, "java/lang/Long");
}

#[test]
fn the_first_failure_ends_the_lookups() {
    let (all, _) = drive(None);
    for failing in 0..16 {
        let (made, cache) = drive(Some(failing));
        assert_eq!(made, all[..=failing].to_vec());
        assert!(matches!(cache, Err(JniInitError::Lookup(e)) if e == failing));
    }
}

#[test]
fn handles_of_the_wrong_kind_are_refused() {
    let init: Init = JniCache::init();
    assert!(init.current_class().is_none());
    let wrong: JniOutcome<String, String, String, usize> =
        JniOutcome::Found(JniHandle::Method("m".to_string()));
    assert!(matches!(init.record(wrong), Err(JniInitError::Mismatch)));
}

#[test]
fn a_half_filled_cache_cannot_be_had() {
    let init: Init = JniCache::init();
    let found: JniOutcome<String, String, String, usize> =
        JniOutcome::Found(JniHandle::Class("c".to_string()));
    let init = init.record(found).unwrap();
    assert_eq!(init.current_class(), Some(&"c".to_string()));
    assert!(init.finish().is_none());
}
