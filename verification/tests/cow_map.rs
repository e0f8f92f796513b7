use hashcow::CowHashMap;
use hashcow::Form;

#[test]
fn new_is_empty() {
    let hm: CowHashMap = CowHashMap::new();
    assert_eq!(hm.len(), 0);
    assert!(hm.is_empty());
    assert_eq!(hm.capacity(), 0);
}

#[test]
fn with_capacity_reserves() {
    let hm: CowHashMap = CowHashMap::with_capacity(5);
    assert!(hm.capacity() >= 5);
    assert_eq!(hm.len(), 0);
}

#[test]
fn reserve_grows_capacity() {
    let mut hm: CowHashMap = CowHashMap::new();
    hm.reserve(10);
    assert!(hm.capacity() >= 10);
}

#[test]
fn shrink_to_fit_keeps_entries() {
    let mut hm: CowHashMap = CowHashMap::with_capacity(100);
    hm.insert_owned("key".to_owned(), vec![1, 2, 3]);
    hm.shrink_to_fit();
    assert_eq!(hm.len(), 1);
    assert_eq!(hm.get("key").unwrap(), &vec![1, 2, 3]);
    assert!(hm.capacity() >= 1);
}

#[test]
fn insert_owned_then_get() {
    let mut hm: CowHashMap = CowHashMap::new();
    let prev = hm.insert_owned("key".to_owned(), vec![1, 2, 3]);
    assert!(prev.is_none());
    assert_eq!(hm.len(), 1);
    assert!(!hm.is_empty());
    assert_eq!(hm.get("key").unwrap(), &vec![1, 2, 3]);
    assert_eq!(hm.entry_form("key"), Some(Form::Owned));
}

#[test]
fn insert_borrowed_then_get() {
    let src: Vec<u8> = vec![7, 8, 9];
    let mut hm: CowHashMap = CowHashMap::new();
    let prev = hm.insert_borrowed("key", &src);
    assert!(prev.is_none());
    assert_eq!(hm.get("key").unwrap(), &vec![7, 8, 9]);
    assert_eq!(hm.entry_form("key"), Some(Form::Borrowed));
}

#[test]
fn insert_owned_borrowed_key_then_get() {
    let mut hm: CowHashMap = CowHashMap::new();
    let prev = hm.insert_owned_borrowed_key("key", vec![1, 2, 3]);
    assert!(prev.is_none());
    assert_eq!(hm.len(), 1);
    assert_eq!(hm.get("key").unwrap(), &vec![1, 2, 3]);
    assert_eq!(hm.entry_form("key"), Some(Form::Owned));
}

#[test]
fn insert_borrowed_owned_key_then_get() {
    let src: Vec<u8> = vec![4, 5];
    let mut hm: CowHashMap = CowHashMap::new();
    let prev = hm.insert_borrowed_owned_key("key".to_owned(), &src);
    assert!(prev.is_none());
    assert_eq!(hm.get("key").unwrap(), &vec![4, 5]);
    assert_eq!(hm.entry_form("key"), Some(Form::Borrowed));
}

#[test]
fn get_missing_key_is_none() {
    let mut hm: CowHashMap = CowHashMap::new();
    hm.insert_owned("key".to_owned(), vec![1]);
    assert!(hm.get("other").is_none());
    assert!(hm.get_mut("other").is_none());
    assert!(hm.make_owned("other").is_none());
    assert!(hm.entry_form("other").is_none());
}

#[test]
fn replace_returns_previous_owned() {
    let mut hm: CowHashMap = CowHashMap::new();
    hm.insert_owned("key".to_owned(), vec![1, 2, 3]);
    let prev = hm.insert_owned("key".to_owned(), vec![4, 5]);
    assert_eq!(prev, Some(vec![1, 2, 3]));
    assert_eq!(hm.len(), 1);
    assert_eq!(hm.get("key").unwrap(), &vec![4, 5]);
}

#[test]
fn replace_materializes_borrowed_previous() {
    let src: Vec<u8> = vec![1, 2, 3];
    let mut hm: CowHashMap = CowHashMap::new();
    hm.insert_borrowed("key", &src);
    // The previous value was borrowed: replacing it hands back an owned
    // copy of the bytes most recently stored under the key.
    let prev = hm.insert_owned("key".to_owned(), vec![9]);
    assert_eq!(prev, Some(vec![1, 2, 3]));
    assert_eq!(hm.get("key").unwrap(), &vec![9]);
    assert_eq!(hm.entry_form("key"), Some(Form::Owned));
    assert_eq!(src, vec![1, 2, 3]);
}

#[test]
fn replace_across_variants_returns_previous() {
    let src: Vec<u8> = vec![1, 2];
    let mut hm: CowHashMap = CowHashMap::new();
    hm.insert_owned("key".to_owned(), vec![0]);
    let prev = hm.insert_borrowed("key", &src);
    assert_eq!(prev, Some(vec![0]));
    assert_eq!(hm.entry_form("key"), Some(Form::Borrowed));
    let prev2 = hm.insert_borrowed_owned_key("key".to_owned(), &src);
    assert_eq!(prev2, Some(vec![1, 2]));
    let prev3 = hm.insert_owned_borrowed_key("key", vec![7]);
    assert_eq!(prev3, Some(vec![1, 2]));
    assert_eq!(hm.get("key").unwrap(), &vec![7]);
}

#[test]
fn get_mut_materializes_entry() {
    let src: Vec<u8> = vec![1, 2, 3];
    let mut hm: CowHashMap = CowHashMap::new();
    hm.insert_borrowed("key", &src);
    assert_eq!(hm.entry_form("key"), Some(Form::Borrowed));
    {
        let entry = hm.get_mut("key").unwrap();
        assert_eq!(entry, &mut vec![1, 2, 3]);
    }
    // The handle alone forces the entry into owned form, and that is
    // stable under further calls: the content does not change again.
    assert_eq!(hm.entry_form("key"), Some(Form::Owned));
    assert_eq!(hm.get("key").unwrap(), &vec![1, 2, 3]);
    {
        let entry = hm.get_mut("key").unwrap();
        assert_eq!(entry, &mut vec![1, 2, 3]);
    }
    assert_eq!(hm.entry_form("key"), Some(Form::Owned));
    assert_eq!(hm.get("key").unwrap(), &vec![1, 2, 3]);
}

#[test]
fn make_owned_is_idempotent() {
    let src: Vec<u8> = vec![1, 2, 3];
    let mut hm: CowHashMap = CowHashMap::new();
    hm.insert_borrowed("key", &src);
    assert_eq!(hm.entry_form("key"), Some(Form::Borrowed));
    let first = hm.make_owned("key").cloned();
    assert_eq!(first, Some(vec![1, 2, 3]));
    assert_eq!(hm.entry_form("key"), Some(Form::Owned));
    let second = hm.make_owned("key").cloned();
    assert_eq!(second, first);
    let third = hm.make_owned("key").cloned();
    assert_eq!(third, first);
    assert_eq!(hm.entry_form("key"), Some(Form::Owned));
    assert_eq!(src, vec![1, 2, 3]);
}

#[test]
fn keys_lists_every_key_once() {
    let src: Vec<u8> = vec![1];
    let mut hm: CowHashMap = CowHashMap::new();
    hm.insert_borrowed("key1", &src);
    hm.insert_owned("key2".to_owned(), vec![2]);
    let keys = hm.keys();
    assert_eq!(keys.len(), 2);
    assert!(keys.iter().any(|k| k.as_str() == "key1"));
    assert!(keys.iter().any(|k| k.as_str() == "key2"));
    // Restartable: a second call yields the same key set.
    let again = hm.keys();
    assert_eq!(again.len(), 2);
    assert!(again.iter().any(|k| k.as_str() == "key1"));
    assert!(again.iter().any(|k| k.as_str() == "key2"));
}

#[test]
fn borrow_fields_snapshot() {
    let src: Vec<u8> = vec![1, 2];
    let mut hm: CowHashMap = CowHashMap::new();
    hm.insert_owned("key1".to_owned(), vec![3, 4]);
    hm.insert_borrowed("key2", &src);
    assert_eq!(hm.entry_form("key1"), Some(Form::Owned));

    let snap = hm.borrow_fields();
    assert_eq!(snap.len(), hm.len());
    assert_eq!(snap.get("key1"), hm.get("key1"));
    assert_eq!(snap.get("key2"), hm.get("key2"));
    assert_eq!(snap.entry_form("key1"), Some(Form::Borrowed));
    assert_eq!(snap.entry_form("key2"), Some(Form::Borrowed));

    // The source map is left completely unmodified.
    assert_eq!(hm.entry_form("key1"), Some(Form::Owned));
    assert_eq!(hm.entry_form("key2"), Some(Form::Borrowed));
    assert_eq!(hm.get("key1").unwrap(), &vec![3, 4]);
}

#[test]
fn borrow_fields_of_empty_map() {
    let hm: CowHashMap = CowHashMap::new();
    let snap = hm.borrow_fields();
    assert_eq!(snap.len(), 0);
    assert!(snap.is_empty());
}

#[test]
fn cow_scenario() {
    let source: Vec<u8> = vec![1, 2, 3];
    let mut hm: CowHashMap = CowHashMap::new();
    hm.insert_borrowed("key1", &source);
    hm.insert_owned("key2".to_owned(), vec![4, 5, 6]);

    assert_eq!(hm.len(), 2);
    assert_eq!(hm.get("key1").unwrap(), &vec![1, 2, 3]);
    assert_eq!(hm.get("key2").unwrap(), &vec![4, 5, 6]);
    assert_eq!(hm.entry_form("key1"), Some(Form::Borrowed));

    {
        let entry = hm.get_mut("key1").unwrap();
        assert_eq!(entry, &mut vec![1, 2, 3]);
        *entry = vec![4, 5, 6];
    }

    assert_eq!(hm.entry_form("key1"), Some(Form::Owned));
    assert_eq!(hm.get("key1").unwrap(), &vec![4, 5, 6]);
    // The externally owned source bytes are untouched by the mutation.
    assert_eq!(source, vec![1, 2, 3]);
}

#[test]
fn equal_keys_across_forms_share_one_entry() {
    let src: Vec<u8> = vec![1];
    let mut hm: CowHashMap = CowHashMap::new();
    hm.insert_owned_borrowed_key("key", vec![0]);
    let prev = hm.insert_borrowed_owned_key("key".to_owned(), &src);
    assert_eq!(prev, Some(vec![0]));
    assert_eq!(hm.len(), 1);
}
