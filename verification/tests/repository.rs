use git2::{Repository, Signature};
use git_ast::git_fuse::{GitFS, ObjectId, ROOT_INODE};
use tempfile::tempdir;

fn root_tree(path: &str) -> Result<ObjectId, git2::Error> {
    let repo = Repository::open(path)?;
    let head = repo.head()?;
    let commit = head.peel_to_commit()?;
    let tree = commit.tree()?;
    let mut bytes = [0u8; 20];
    bytes.copy_from_slice(tree.id().as_bytes());
    Ok(ObjectId { bytes })
}

#[test]
fn test_gitfs_perform_initialization() {
    // 1. Create a temporary directory and initialize a bare Git repo
    let td = tempdir().expect("Failed to create temp dir");
    let repo_path = td.path();
    let repo = Repository::init_bare(repo_path).expect("Failed to init bare repo");

    // 2. Create an initial empty commit to establish HEAD
    let tree_id;
    {
        let signature =
            Signature::now("Test User", "test@example.com").expect("Failed to create signature");
        tree_id = repo
            .treebuilder(None)
            .expect("Failed to create treebuilder")
            .write()
            .expect("Failed to write empty tree");
        let tree = repo.find_tree(tree_id).expect("Failed to find empty tree");
        repo.commit(Some("HEAD"), &signature, &signature, "Initial empty commit", &tree, &[])
            .expect("Failed to create initial commit");
    }
    println!("Temporary repo created at: {:?}", repo_path);

    // 3. Instantiate GitFS
    let path = repo_path.to_str().unwrap().to_string();
    let mut gitfs = GitFS::new(path.clone());

    // 4. Call the internal initialization method directly
    let init_result = gitfs.perform_initialization(root_tree(&path));

    // 5. Assert success and internal state
    assert!(init_result.is_ok(), "perform_initialization failed: {:?}", init_result.err());
    assert!(gitfs.is_initialized(), "Repository should be initialized");
    assert!(gitfs.object_of(ROOT_INODE).is_some(), "Root inode should be mapped");
    assert_eq!(gitfs.mapped(), 1, "Only root OID should be mapped initially");
    assert_eq!(gitfs.mapped(), 1, "Only root inode should be mapped initially");
    assert_eq!(gitfs.object_of(ROOT_INODE).unwrap().bytes, tree_id.as_bytes());
    println!("perform_initialization test completed successfully.");
}

#[test]
fn initialization_fails_without_a_repository() {
    let td = tempdir().expect("Failed to create temp dir");
    let path = td.path().to_str().unwrap().to_string();
    let mut gitfs = GitFS::new(path.clone());
    assert!(gitfs.perform_initialization(root_tree(&path)).is_err());
    assert!(!gitfs.is_initialized());
    assert_eq!(gitfs.mapped(), 0);
}
