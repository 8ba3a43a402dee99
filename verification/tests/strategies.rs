use wordfreq::document::{collect_texts, Document, DocumentReadFailure};
use wordfreq::frequency::FrequencyMap;
use wordfreq::pipeline::{pipelineparalelism, PipelineError};
use wordfreq::strategy::{
    count_in_parallel, count_in_sequence, count_on_pool, parallelism, parallelism_with_pool,
    squential, ParallelError,
};

fn doc(path: &str, text: &str) -> Document {
    Document { path: path.to_string(), content: Some(text.to_string()) }
}

fn unreadable(path: &str) -> Document {
    Document { path: path.to_string(), content: None }
}

fn table(pairs: &[(&str, u64)]) -> FrequencyMap {
    let mut m = FrequencyMap::new();
    for (word, n) in pairs {
        m.add(word, *n);
    }
    m
}

fn run_all(docs: &Vec<Document>) -> (FrequencyMap, FrequencyMap, FrequencyMap) {
    let s = match squential(docs.clone()) {
        Ok(m) => m,
        Err(e) => panic!("sequential failed: {:?}", e),
    };
    let p = match parallelism(docs.clone()) {
        Ok(m) => m,
        Err(e) => panic!("parallel failed: {:?}", e),
    };
    let q = match pipelineparalelism(docs.clone()) {
        Ok(m) => m,
        Err(e) => panic!("pipeline failed: {:?}", e),
    };
    (s, p, q)
}

#[test]
fn two_documents_give_the_baseline_counts() {
    let docs = vec![doc("a", "the cat sat"), doc("b", "the dog sat")];
    let expected = table(&[("the", 2), ("cat", 1), ("sat", 2), ("dog", 1)]);
    let (s, p, q) = run_all(&docs);
    assert!(s.same_counts(&expected));
    assert!(p.same_counts(&expected));
    assert!(q.same_counts(&expected));
    assert_eq!(s.get("the"), 2);
    assert_eq!(s.get("cat"), 1);
    assert_eq!(s.get("sat"), 2);
    assert_eq!(s.get("dog"), 1);
    assert_eq!(s.len(), 4);
}

#[test]
fn one_empty_document_gives_an_empty_table() {
    let docs = vec![doc("empty", "")];
    let (s, p, q) = run_all(&docs);
    assert!(s.is_empty());
    assert!(p.is_empty());
    assert!(q.is_empty());
    assert!(s.same_counts(&p));
    assert!(s.same_counts(&q));
}

#[test]
fn whitespace_only_document_gives_an_empty_table() {
    let docs = vec![doc("blank", "   \n\t  ")];
    let (s, p, q) = run_all(&docs);
    assert!(s.is_empty());
    assert!(p.is_empty());
    assert!(q.is_empty());
}

#[test]
fn no_documents_give_an_empty_table() {
    let (s, p, q) = run_all(&Vec::new());
    assert!(s.is_empty());
    assert!(p.is_empty());
    assert!(q.is_empty());
}

#[test]
fn word_spread_over_ten_documents_is_counted_a_thousand_times() {
    let mut docs = Vec::new();
    for i in 0..10 {
        let mut text = String::new();
        for j in 0..100 {
            text.push_str("needle ");
            if j % 7 == i % 7 {
                text.push_str("hay\n");
            }
        }
        docs.push(doc(&format!("doc{}", i), &text));
    }
    let (s, p, q) = run_all(&docs);
    assert_eq!(s.get("needle"), 1000);
    assert_eq!(p.get("needle"), 1000);
    assert_eq!(q.get("needle"), 1000);
    assert!(s.same_counts(&p));
    assert!(s.same_counts(&q));
}

#[test]
fn strategies_agree_on_a_mixed_corpus() {
    let mut docs = Vec::new();
    for i in 0..64u32 {
        let mut text = String::new();
        for j in 0..(i * 3 + 1) {
            text.push_str(&format!("w{} ", (i * j) % 17));
            if j % 5 == 0 {
                text.push_str("\t common \n");
            }
        }
        docs.push(doc(&format!("d{}", i), &text));
    }
    let (s, p, q) = run_all(&docs);
    assert!(s.same_counts(&p));
    assert!(p.same_counts(&q));
    assert_eq!(s.len(), p.len());
    assert_eq!(s.len(), q.len());
    let mut keys_s: Vec<String> = s.entries().into_iter().map(|e| e.0).collect();
    let mut keys_p: Vec<String> = p.entries().into_iter().map(|e| e.0).collect();
    let mut keys_q: Vec<String> = q.entries().into_iter().map(|e| e.0).collect();
    keys_s.sort();
    keys_p.sort();
    keys_q.sort();
    assert_eq!(keys_s, keys_p);
    assert_eq!(keys_s, keys_q);
}

#[test]
fn parallel_count_differs_from_its_input_and_matches_the_sequential_one() {
    let texts = vec!["a b a".to_string(), "b c".to_string(), "".to_string(), "a".to_string()];
    let p = count_in_parallel(texts.clone());
    let s = count_in_sequence(&texts);
    assert!(p.same_counts(&s));
    assert!(p.same_counts(&table(&[("a", 3), ("b", 2), ("c", 1)])));
}

#[test]
fn read_failure_fails_the_parallel_run() {
    let docs = vec![doc("one", "a b"), unreadable("two"), doc("three", "c")];
    match parallelism(docs) {
        Ok(_) => panic!("a partial table was returned"),
        Err(e) => assert_eq!(e, DocumentReadFailure { path: "two".to_string() }),
    }
}

#[test]
fn read_failure_fails_the_sequential_run() {
    let docs = vec![doc("one", "a b"), doc("two", "c"), unreadable("three")];
    match squential(docs) {
        Ok(_) => panic!("a partial table was returned"),
        Err(e) => assert_eq!(e.path, "three"),
    }
}

#[test]
fn read_failure_fails_the_pipeline_run() {
    let docs = vec![unreadable("one"), doc("two", "c")];
    match pipelineparalelism(docs) {
        Ok(_) => panic!("a partial table was returned"),
        Err(e) => assert_eq!(
            e,
            PipelineError::DocumentReadFailure(DocumentReadFailure { path: "one".to_string() })
        ),
    }
}

#[test]
fn first_unreadable_document_is_the_one_reported() {
    let docs = vec![doc("one", "a"), unreadable("two"), unreadable("three")];
    for result in [squential(docs.clone()), parallelism(docs.clone())] {
        match result {
            Ok(_) => panic!("a partial table was returned"),
            Err(e) => assert_eq!(e.path, "two"),
        }
    }
}

#[test]
fn collect_texts_keeps_the_order_of_the_documents() {
    let docs = vec![doc("one", "first"), doc("two", ""), doc("three", "third")];
    assert_eq!(
        collect_texts(docs),
        Ok(vec!["first".to_string(), "".to_string(), "third".to_string()])
    );
}

#[test]
fn collect_texts_of_no_documents_is_empty() {
    assert_eq!(collect_texts(Vec::new()), Ok(Vec::new()));
}

#[test]
fn pipeline_runs_twice_independently() {
    let docs = vec![doc("a", "the cat sat"), doc("b", "the dog sat")];
    let first = match pipelineparalelism(docs.clone()) {
        Ok(m) => m,
        Err(e) => panic!("first run failed: {:?}", e),
    };
    let second = match pipelineparalelism(docs.clone()) {
        Ok(m) => m,
        Err(e) => panic!("second run failed: {:?}", e),
    };
    assert!(first.same_counts(&second));
    assert_eq!(first.get("the"), 2);
    assert_eq!(second.get("the"), 2);
    assert_eq!(second.len(), 4);
}

#[test]
fn pool_of_any_size_gives_the_baseline_counts() {
    let docs = vec![doc("a", "the cat sat"), doc("b", "the dog sat"), doc("c", "")];
    let expected = table(&[("the", 2), ("cat", 1), ("sat", 2), ("dog", 1)]);
    for size in [0usize, 1, 2, 5] {
        match parallelism_with_pool(docs.clone(), size) {
            Ok(m) => assert!(m.same_counts(&expected), "pool size {}", size),
            Err(e) => panic!("pool size {}: {:?}", size, e),
        }
    }
}

#[test]
fn pool_is_not_started_for_unreadable_documents() {
    let docs = vec![doc("a", "x"), unreadable("b")];
    match parallelism_with_pool(docs, 2) {
        Ok(_) => panic!("a partial table was returned"),
        Err(e) => assert_eq!(
            e,
            ParallelError::DocumentReadFailure(DocumentReadFailure { path: "b".to_string() })
        ),
    }
}

#[test]
fn count_on_pool_uses_the_pool_it_is_given() {
    let pool = rayon::ThreadPoolBuilder::new().num_threads(3).build();
    let texts = vec!["a b".to_string(), "b c".to_string()];
    match count_on_pool(pool, texts) {
        Ok(m) => assert!(m.same_counts(&table(&[("a", 1), ("b", 2), ("c", 1)]))),
        Err(e) => panic!("{:?}", e),
    }
}

#[test]
fn count_on_pool_without_a_pool_fails() {
    let _ = rayon::ThreadPoolBuilder::new().build_global();
    let second = match rayon::ThreadPoolBuilder::new().build_global() {
        Ok(()) => panic!("the global pool was started twice"),
        Err(e) => Err(e),
    };
    match count_on_pool(second, vec!["a".to_string()]) {
        Ok(_) => panic!("counted without a pool"),
        Err(e) => assert_eq!(e, ParallelError::PoolUnavailable),
    }
}
