use acerola::security::ComicError;
use acerola::templates::{ArchiveTemplate, ArchiveTemplateService, SortType};

fn template(id: i64, label: &str, is_default: bool) -> ArchiveTemplate {
    ArchiveTemplate {
        id,
        label: label.to_string(),
        pattern: "{chapter}".to_string(),
        sort_type: SortType::Chapter,
        is_default,
        priority: 0,
    }
}

#[test]
fn templates_are_listed_defaults_first_then_by_label() {
    let mut list = vec![
        template(1, "Zeta", false),
        template(2, "Beta", true),
        template(3, "Alpha", false),
        template(4, "Alpha", true),
        template(5, "Alpha", false),
    ];
    ArchiveTemplateService::order_templates(&mut list);
    let ids: Vec<i64> = list.iter().map(|t| t.id).collect();
    assert_eq!(ids, vec![4, 2, 3, 5, 1]);
}

#[test]
fn ordering_an_empty_list_keeps_it_empty() {
    let mut list: Vec<ArchiveTemplate> = Vec::new();
    ArchiveTemplateService::order_templates(&mut list);
    assert!(list.is_empty());
}

#[test]
fn new_templates_are_trimmed_and_need_a_name() {
    assert_eq!(
        ArchiveTemplateService::prepare_new_template("  My label ", " Cap {chapter} "),
        Ok(("My label".to_string(), "Cap {chapter}".to_string()))
    );
    assert_eq!(
        ArchiveTemplateService::prepare_new_template("   ", "x"),
        Err(ComicError::InvalidRequest("Template name cannot be empty.".to_string()))
    );
}

#[test]
fn only_existing_custom_templates_can_be_deleted() {
    let list = vec![template(1, "A", true), template(2, "B", false)];
    assert_eq!(ArchiveTemplateService::check_deletable(&list, 2), Ok(()));
    assert_eq!(
        ArchiveTemplateService::check_deletable(&list, 1),
        Err(ComicError::InvalidRequest("Default templates cannot be deleted.".to_string()))
    );
    assert_eq!(ArchiveTemplateService::check_deletable(&list, 9), Err(ComicError::NotFound));
}
