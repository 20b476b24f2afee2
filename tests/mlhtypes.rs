use mlh_archiver::mlhtypes::{NodeConstraint, NodeType, NUMBER_OF_TYPES};

#[test]
fn names_and_indices_of_kinds() {
    let all = NodeType::all();
    assert_eq!(all.len(), NUMBER_OF_TYPES);
    let names: Vec<&str> = all.iter().map(|t| t.to_str()).collect();
    assert_eq!(names, vec!["emb", "emm", "ori", "mls", "ptc", "prs"]);
    let idx: Vec<u8> = all.iter().map(|t| t.to_u8()).collect();
    assert_eq!(idx, vec![0, 1, 2, 3, 4, 5]);
    for t in all {
        assert_eq!(NodeType::from_u8(t.to_u8()), Ok(t));
        assert_eq!(NodeType::parse(t.to_str()), Ok(t));
    }
    assert_eq!(NodeType::from_u8(6), Err(6));
}

#[test]
fn parse_kind_names() {
    assert_eq!(NodeType::parse("emm"), Ok(NodeType::EmailMessage));
    assert_eq!(NodeType::parse("xyz"), Err("xyz".to_string()));
    assert_eq!(NodeType::parse("EMM"), Err("EMM".to_string()));
}

#[test]
fn constraint_matches_its_bits() {
    let only_mails = NodeConstraint(0b000010);
    assert!(only_mails.matches(NodeType::EmailMessage));
    assert!(!only_mails.matches(NodeType::EmailBody));
    let all_nodes = NodeConstraint::default();
    assert_eq!(all_nodes, NodeConstraint(0b111111));
    for t in NodeType::all() {
        assert!(all_nodes.matches(t));
    }
}

#[test]
fn constraint_lists_its_kinds() {
    assert_eq!(
        NodeConstraint(0b111100).to_vec(),
        vec![NodeType::Origin, NodeType::MailingList, NodeType::Patch, NodeType::Person]
    );
    assert_eq!(NodeConstraint(0).to_vec(), vec![]);
    assert_eq!(NodeConstraint(1 << 40 | 1).to_vec(), vec![NodeType::EmailBody]);
}

#[test]
fn constraint_text() {
    assert_eq!(NodeConstraint::parse("*"), Ok(NodeConstraint(0b111111)));
    assert_eq!(NodeConstraint::parse("emm"), Ok(NodeConstraint(0b000010)));
    assert_eq!(NodeConstraint::parse("emm,emb"), Ok(NodeConstraint(0b000011)));
    assert_eq!(NodeConstraint::parse("emm,xyz,abc"), Err("xyz".to_string()));
    assert_eq!("ori".parse::<NodeConstraint>(), Ok(NodeConstraint(0b000100)));
    assert_eq!("emm".parse::<NodeType>(), Ok(NodeType::EmailMessage));
    assert_eq!(NodeConstraint::default().to_text(), "*");
    assert_eq!(NodeConstraint(0b000011).to_text(), "emb,emm");
    assert_eq!(NodeConstraint(0b111100).to_text(), "mls,ori,prs,ptc");
    assert_eq!(NodeConstraint(0).to_text(), "");
}
