use image_rs::error::DomainError;
use image_rs::names::NameMap;
use image_rs::upload::{ImageUpload, OpContext};

#[test]
fn fields_are_sorted_by_name() {
    let mut u: ImageUpload<Vec<u8>> = ImageUpload::new();
    u.add_field(Some("file".to_string()), vec![1]);
    u.add_field(Some("ops".to_string()), vec![2]);
    u.add_field(Some("output".to_string()), vec![3]);
    u.add_field(Some("logo".to_string()), vec![4]);
    u.add_field(Some("logo".to_string()), vec![5]);
    u.add_field(None, vec![6]);
    assert_eq!(u.primary, Some(vec![1]));
    assert_eq!(u.ops_json, Some(vec![2]));
    assert_eq!(u.output_json, Some(vec![3]));
    assert_eq!(u.assets.get("logo"), Some(&vec![5]));
    assert!(!u.assets.contains("file"));
}

#[test]
fn primary_is_required() {
    let u: ImageUpload<Vec<u8>> = ImageUpload::new();
    match u.primary_required() {
        Err(DomainError::InvalidArgument(m)) => assert_eq!(m, "missing 'file' field"),
        _ => panic!("expected invalid argument"),
    }
}

#[test]
fn diff_takes_before_and_after() {
    let mut u: ImageUpload<Vec<u8>> = ImageUpload::new();
    u.add_field(Some("file".to_string()), vec![1]);
    u.add_field(Some("after".to_string()), vec![2]);
    let (b, a) = u.take_diff_inputs().unwrap();
    assert_eq!((b, a), (vec![1], vec![2]));
    assert!(!u.assets.contains("after"));

    let mut u: ImageUpload<Vec<u8>> = ImageUpload::new();
    u.add_field(Some("before".to_string()), vec![7]);
    match u.take_diff_inputs() {
        Err(DomainError::InvalidArgument(m)) => assert_eq!(m, "missing 'after' field"),
        _ => panic!("expected invalid argument"),
    }
    let mut u: ImageUpload<Vec<u8>> = ImageUpload::new();
    match u.take_diff_inputs() {
        Err(DomainError::InvalidArgument(m)) => assert_eq!(m, "missing 'before' field"),
        _ => panic!("expected invalid argument"),
    }
}

#[test]
fn missing_asset_is_named() {
    let mut assets = NameMap::new();
    assets.insert("watermark".to_string(), vec![1u8]);
    let ctx = OpContext::new(assets);
    assert_eq!(ctx.asset("watermark").unwrap(), &vec![1u8]);
    match ctx.asset("logo") {
        Err(DomainError::MissingAsset(m)) => assert_eq!(m, "logo"),
        _ => panic!("expected a missing asset"),
    }
}

#[test]
fn name_map_replaces_and_removes() {
    let mut m = NameMap::new();
    m.insert("a".to_string(), 1);
    m.insert("b".to_string(), 2);
    m.insert("a".to_string(), 3);
    assert_eq!(m.get("a"), Some(&3));
    assert_eq!(m.remove("a"), Some(3));
    assert_eq!(m.remove("a"), None);
    assert_eq!(m.get("b"), Some(&2));
}

#[test]
fn diff_inputs_are_taken_out_of_the_assets() {
    let mut u: ImageUpload<Vec<u8>> = ImageUpload::new();
    u.add_field(Some("before".to_string()), vec![1]);
    u.add_field(Some("after".to_string()), vec![2]);
    u.add_field(Some("logo".to_string()), vec![3]);
    let (b, a) = u.take_diff_inputs().unwrap();
    assert_eq!((b, a), (vec![1], vec![2]));
    assert!(!u.assets.contains("before"));
    assert!(!u.assets.contains("after"));
    assert!(u.assets.contains("logo"));
}
