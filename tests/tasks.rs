use task_store::store::Tasks;
use task_store::task::Task;

const OWNER: &str = "mitsori1.testnet";

#[test]
fn create_task() {
    let mut contract = Tasks::default();
    contract.create_task(
        String::from(OWNER),
        String::from("Task 1"),
        String::from("Feb 7"),
        false,
    );

    assert_eq!("Task 1".to_string(), contract.get_task_by_id(0).unwrap().get_task_content());

    let user_tasks = contract.get_user_tasks("mitsori1.testnet".to_string());
    assert_eq!(1, user_tasks.len());
    assert_eq!(0, user_tasks[0].get_task_id());
}

#[test]
fn delete_task() {
    let mut contract = Tasks::default();
    contract.create_task(
        String::from(OWNER),
        String::from("Task 1"),
        String::from("Feb 7"),
        false,
    );
    contract.delete_task_by_id(0);
    assert_eq!(0, contract.get_total_task(), "Delete does not work");

    assert_eq!(
        0,
        contract.get_user_total_task(String::from("mitsori1.testnet")),
        "User total post does not work"
    );
}

#[test]
fn unknown_owner_has_no_tasks() {
    let mut contract = Tasks::new();
    assert!(contract.get_user_tasks(String::from(OWNER)).is_empty());
    assert_eq!(0, contract.get_user_total_task(String::from(OWNER)));
    contract.create_task(String::from("alice.testnet"), String::from("a"), String::from("b"), true);
    assert!(contract.get_user_tasks(String::from(OWNER)).is_empty());
    assert_eq!(0, contract.get_user_total_task(String::from(OWNER)));
}

#[test]
fn created_task_is_listed_for_its_owner() {
    let mut contract = Tasks::new();
    contract.create_task(String::from(OWNER), String::from("Task 1"), String::from("Feb 7"), false);
    assert_eq!(1, contract.get_user_total_task(String::from(OWNER)));
    let listed = contract.get_user_tasks(String::from(OWNER));
    assert_eq!(1, listed.len());
    assert_eq!("Task 1", listed[0].get_task_content());
    assert_eq!("Feb 7", listed[0].get_day());
    assert!(!listed[0].get_reminder());
}

#[test]
fn create_then_delete_empties_the_store() {
    let mut contract = Tasks::new();
    let id = contract.create_task(String::from(OWNER), String::from("Task 1"), String::from("Feb 7"), false);
    assert!(contract.delete_task_by_id(id));
    assert_eq!(0, contract.get_user_total_task(String::from(OWNER)));
    assert_eq!(0, contract.get_total_task());
    assert!(contract.get_task_by_id(id).is_none());
    assert!(contract.get_tasks().is_empty());
}

#[test]
fn counter_is_shared_by_owners() {
    let mut contract = Tasks::new();
    assert_eq!(0, contract.get_next_task_id());
    let first = contract.create_task(String::from(OWNER), String::from("x"), String::from("Mon"), false);
    let second = contract.create_task(String::from("bob.testnet"), String::from("y"), String::from("Tue"), true);
    let third = contract.create_task(String::from(OWNER), String::from("z"), String::from("Wed"), false);
    assert_eq!(0, first);
    assert_eq!(1, second);
    assert_eq!(2, third);
    assert_eq!(3, contract.get_next_task_id());
    assert_eq!(4, contract.increase_post_id());
}

#[test]
fn identifiers_are_not_reused_after_delete() {
    let mut contract = Tasks::new();
    let first = contract.create_task(String::from(OWNER), String::from("x"), String::from("Mon"), false);
    assert!(contract.delete_task_by_id(first));
    let second = contract.create_task(String::from(OWNER), String::from("y"), String::from("Tue"), false);
    assert_eq!(1, second);
}

#[test]
fn deleting_a_missing_id_changes_nothing() {
    let mut contract = Tasks::new();
    contract.create_task(String::from(OWNER), String::from("Task 1"), String::from("Feb 7"), false);
    assert!(!contract.delete_task_by_id(7));
    assert_eq!(1, contract.get_total_task());
    assert_eq!(1, contract.get_user_total_task(String::from(OWNER)));
    assert_eq!(1, contract.get_next_task_id());
    assert!(!Tasks::new().delete_task_by_id(0));
}

#[test]
fn listing_keeps_creation_order() {
    let mut contract = Tasks::new();
    contract.create_task(String::from(OWNER), String::from("a"), String::from("1"), false);
    contract.create_task(String::from("bob.testnet"), String::from("b"), String::from("2"), false);
    contract.create_task(String::from(OWNER), String::from("c"), String::from("3"), true);
    let mine: Vec<String> = contract
        .get_user_tasks(String::from(OWNER))
        .iter()
        .map(|t| t.get_task_content())
        .collect();
    assert_eq!(vec!["a".to_string(), "c".to_string()], mine);
    let all: Vec<usize> = contract.get_tasks().iter().map(|t| t.get_task_id()).collect();
    assert_eq!(vec![0, 1, 2], all);
    assert!(contract.delete_task_by_id(1));
    let all: Vec<usize> = contract.get_tasks().iter().map(|t| t.get_task_id()).collect();
    assert_eq!(vec![0, 2], all);
    assert_eq!(2, contract.get_user_total_task(String::from(OWNER)));
}

#[test]
fn delete_by_another_caller_removes_from_owner_list() {
    let mut contract = Tasks::new();
    let id = contract.create_task(String::from(OWNER), String::from("a"), String::from("1"), false);
    assert!(contract.delete_task_by_id(id));
    assert!(contract.get_user_tasks(String::from(OWNER)).is_empty());
}

#[test]
fn task_getters_and_duplicate() {
    let t = Task::new(5, String::from("write"), String::from("Fri"), true);
    assert_eq!(5, t.get_task_id());
    assert_eq!("write", t.get_task_content());
    assert_eq!("Fri", t.get_day());
    assert!(t.get_reminder());
    let c = t.duplicate();
    assert_eq!(5, c.get_task_id());
    assert_eq!("write", c.get_task_content());
    assert_eq!("Fri", c.get_day());
    assert!(c.get_reminder());
    let found = {
        let mut s = Tasks::new();
        s.create_task(String::from(OWNER), String::from("write"), String::from("Fri"), true);
        s.get_task_by_id(0).unwrap()
    };
    assert_eq!("Fri", found.get_day());
    assert!(found.get_reminder());
}
