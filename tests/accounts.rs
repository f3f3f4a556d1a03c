use user_store::store::DEFAULT_HASH_COST;
use user_store::{CreateUser, StoreError, Timestamp, User, UserError, UserStore};

fn request(full_name: &str, email: &str, password: &str) -> CreateUser {
    CreateUser {
        full_name: full_name.to_string(),
        email: email.to_string(),
        password: password.to_string(),
    }
}

#[test]
fn ada_lifecycle() {
    let mut store = UserStore::with_hash_cost(4);
    let data = request("Ada Lovelace", "ada@example.com", "s3cr3t");
    let user = User::add_user(&mut store, &data).unwrap();
    assert_eq!(user.full_name, "Ada Lovelace");
    assert_eq!(user.email, "ada@example.com");
    assert_eq!(user.created_at, user.updated_at);
    assert_ne!(user.password, "s3cr3t");
    assert_eq!(uuid::Uuid::from_u128(user.id).get_version_num(), 4);

    let found = User::find_user_by_email(&store, "ada@example.com").unwrap();
    assert_eq!(found, user);

    let deleted = User::delete_user(&mut store, "ada@example.com").unwrap();
    assert_eq!(deleted, "ada@example.com");
    assert_eq!(
        User::find_user_by_email(&store, "ada@example.com"),
        Err(UserError::NotFound)
    );
}

#[test]
fn added_user_password_verifies() {
    let mut store = UserStore::with_hash_cost(4);
    let data = request("Grace Hopper", "grace@example.com", "cobol");
    User::add_user(&mut store, &data).unwrap();
    let found = User::find_user_by_email(&store, "grace@example.com").unwrap();
    assert_eq!(found.full_name, data.full_name);
    assert_eq!(found.email, data.email);
    assert_ne!(found.password, data.password);
    assert_eq!(found.password.len(), 60);
    assert!(found.password.starts_with("$2b$04$"));
    assert!(bcrypt::verify("cobol", &found.password).unwrap());
    assert!(!bcrypt::verify("COBOL", &found.password).unwrap());
}

#[test]
fn default_cost_is_bcrypt_default() {
    assert_eq!(DEFAULT_HASH_COST, bcrypt::DEFAULT_COST);
    assert_eq!(UserStore::new().hash_cost(), 12);
}

#[test]
fn unknown_email_is_not_found() {
    let mut store = UserStore::with_hash_cost(4);
    assert_eq!(
        User::find_user_by_email(&store, "nobody@example.com"),
        Err(UserError::NotFound)
    );
    User::add_user(&mut store, &request("A", "a@example.com", "pw")).unwrap();
    assert_eq!(
        User::find_user_by_email(&store, "b@example.com"),
        Err(UserError::NotFound)
    );
}

#[test]
fn email_is_compared_exactly() {
    let mut store = UserStore::with_hash_cost(4);
    User::add_user(&mut store, &request("A", "a@example.com", "pw")).unwrap();
    assert_eq!(
        User::find_user_by_email(&store, "A@example.com"),
        Err(UserError::NotFound)
    );
    assert_eq!(
        User::find_user_by_email(&store, " a@example.com"),
        Err(UserError::NotFound)
    );
}

#[test]
fn delete_unknown_email_changes_nothing() {
    let mut store = UserStore::with_hash_cost(4);
    let user = User::add_user(&mut store, &request("A", "a@example.com", "pw")).unwrap();
    assert_eq!(
        User::delete_user(&mut store, "b@example.com"),
        Err(UserError::NotFound)
    );
    assert_eq!(store.len(), 1);
    assert_eq!(User::find_user_by_email(&store, "a@example.com"), Ok(user));
}

#[test]
fn delete_twice_is_not_found() {
    let mut store = UserStore::with_hash_cost(4);
    User::add_user(&mut store, &request("A", "a@example.com", "pw")).unwrap();
    assert_eq!(
        User::delete_user(&mut store, "a@example.com"),
        Ok("a@example.com".to_string())
    );
    assert_eq!(
        User::delete_user(&mut store, "a@example.com"),
        Err(UserError::NotFound)
    );
    assert_eq!(store.len(), 0);
}

#[test]
fn delete_keeps_other_users() {
    let mut store = UserStore::with_hash_cost(4);
    let a = User::add_user(&mut store, &request("A", "a@example.com", "pw")).unwrap();
    let b = User::add_user(&mut store, &request("B", "b@example.com", "pw")).unwrap();
    let c = User::add_user(&mut store, &request("C", "c@example.com", "pw")).unwrap();
    assert_eq!(store.len(), 3);
    User::delete_user(&mut store, "b@example.com").unwrap();
    assert_eq!(store.len(), 2);
    assert_eq!(User::find_user_by_email(&store, "a@example.com"), Ok(a));
    assert_eq!(User::find_user_by_email(&store, "c@example.com"), Ok(c));
    assert_ne!(b.id, 0);
}

#[test]
fn duplicate_email_is_refused() {
    let mut store = UserStore::with_hash_cost(4);
    let first = User::add_user(&mut store, &request("A", "a@example.com", "pw")).unwrap();
    assert_eq!(
        User::add_user(&mut store, &request("Other", "a@example.com", "pw2")),
        Err(UserError::Persistence(StoreError::DuplicateEmail))
    );
    assert_eq!(store.len(), 1);
    assert_eq!(User::find_user_by_email(&store, "a@example.com"), Ok(first));
}

#[test]
fn bad_cost_is_a_hashing_error() {
    let mut store = UserStore::with_hash_cost(3);
    assert_eq!(
        User::add_user(&mut store, &request("A", "a@example.com", "pw")),
        Err(UserError::Hashing)
    );
    let mut store = UserStore::with_hash_cost(32);
    assert_eq!(
        User::add_user(&mut store, &request("A", "a@example.com", "pw")),
        Err(UserError::Hashing)
    );
    assert_eq!(store.len(), 0);
}

#[test]
fn long_password_is_hashed() {
    let mut store = UserStore::with_hash_cost(4);
    let long = "x".repeat(100);
    let user = User::add_user(&mut store, &request("A", "a@example.com", &long)).unwrap();
    assert!(bcrypt::verify(&long, &user.password).unwrap());
}

#[test]
fn ids_are_fresh() {
    let mut store = UserStore::with_hash_cost(4);
    let a = User::add_user(&mut store, &request("A", "a@example.com", "pw")).unwrap();
    let b = User::add_user(&mut store, &request("B", "b@example.com", "pw")).unwrap();
    assert_ne!(a.id, b.id);
    assert_eq!((a.id >> 62) & 0x3, 2);
    assert_eq!((b.id >> 76) & 0xf, 4);
}

#[test]
fn timestamps_are_now() {
    let before = chrono::Utc::now().timestamp_micros();
    let mut store = UserStore::with_hash_cost(4);
    let user = User::add_user(&mut store, &request("A", "a@example.com", "pw")).unwrap();
    let after = chrono::Utc::now().timestamp_micros();
    assert!(before <= user.created_at.micros && user.created_at.micros <= after);
    assert_eq!(user.created_at, user.updated_at);
}

#[test]
fn new_record_copies_fields() {
    let data = request("Ada Lovelace", "ada@example.com", "s3cr3t");
    let now = Timestamp { micros: 1_700_000_000_000_000 };
    let user = User::new_record(&data, 42, "hashed".to_string(), now);
    assert_eq!(
        user,
        User {
            id: 42,
            full_name: "Ada Lovelace".to_string(),
            email: "ada@example.com".to_string(),
            password: "hashed".to_string(),
            created_at: now,
            updated_at: now,
        }
    );
    assert_eq!(user.duplicate(), user);
}

#[test]
fn insert_refuses_duplicates() {
    let mut store = UserStore::new();
    let now = Timestamp { micros: 5 };
    let a = User::new_record(&request("A", "a@example.com", "pw"), 1, "h1".to_string(), now);
    let same_id = User::new_record(&request("B", "b@example.com", "pw"), 1, "h2".to_string(), now);
    let same_email = User::new_record(&request("C", "a@example.com", "pw"), 2, "h3".to_string(), now);
    let both = User::new_record(&request("D", "a@example.com", "pw"), 1, "h4".to_string(), now);
    assert_eq!(store.insert(a.clone()), Ok(()));
    assert_eq!(store.insert(same_id), Err(StoreError::DuplicateId));
    assert_eq!(store.insert(same_email), Err(StoreError::DuplicateEmail));
    assert_eq!(store.insert(both), Err(StoreError::DuplicateId));
    assert_eq!(store.len(), 1);
    assert_eq!(store.find_by_email(&"a@example.com".to_string()), Some(a));
}

#[test]
fn remove_by_email_removes_only_that_email() {
    let mut store = UserStore::new();
    let now = Timestamp { micros: 5 };
    let a = User::new_record(&request("A", "a@example.com", "pw"), 1, "h1".to_string(), now);
    let b = User::new_record(&request("B", "b@example.com", "pw"), 2, "h2".to_string(), now);
    store.insert(a.clone()).unwrap();
    store.insert(b).unwrap();
    store.remove_by_email(&"b@example.com".to_string());
    assert_eq!(store.len(), 1);
    assert_eq!(store.find_by_email(&"b@example.com".to_string()), None);
    assert_eq!(store.find_by_email(&"a@example.com".to_string()), Some(a));
    store.remove_by_email(&"zz@example.com".to_string());
    assert_eq!(store.len(), 1);
}

#[test]
fn create_record_hashes_and_stamps() {
    let data = request("Ada Lovelace", "ada@example.com", "s3cr3t");
    let user = User::create_record(&data, 4).unwrap();
    assert_eq!(user.full_name, "Ada Lovelace");
    assert_eq!(user.email, "ada@example.com");
    assert_ne!(user.password, "s3cr3t");
    assert!(bcrypt::verify("s3cr3t", &user.password).unwrap());
    assert_eq!(user.created_at, user.updated_at);
    assert_eq!(User::create_record(&data, 3), Err(UserError::Hashing));
    assert_eq!(User::create_record(&data, 32), Err(UserError::Hashing));
}
