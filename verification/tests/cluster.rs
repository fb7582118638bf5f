use undermoon::common::cluster::{MigrationMeta, SlotRangeTag};

fn ends() -> MigrationMeta {
    MigrationMeta {
        epoch: 7,
        src_proxy_address: "src:7000".to_string(),
        src_node_address: "src:6379".to_string(),
        dst_proxy_address: "dst:7000".to_string(),
        dst_node_address: "dst:6379".to_string(),
    }
}

#[test]
fn migrating_range_names_its_ends() {
    let tag = SlotRangeTag::Migrating(ends());
    let meta = tag.get_migration_meta().expect("a migrating range names its ends");
    assert_eq!(meta.src_proxy_address, "src:7000");
    assert_eq!(meta.dst_proxy_address, "dst:7000");
    assert_eq!(meta.epoch, 7);
}

#[test]
fn importing_range_names_its_ends() {
    let tag = SlotRangeTag::Importing(ends());
    let meta = tag.get_migration_meta().expect("an importing range names its ends");
    assert_eq!(meta.src_node_address, "src:6379");
    assert_eq!(meta.dst_node_address, "dst:6379");
}

#[test]
fn stable_range_names_no_ends() {
    assert!(SlotRangeTag::Stable.get_migration_meta().is_none());
}
