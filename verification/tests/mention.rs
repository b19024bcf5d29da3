use rpr::context::{Context, SpeakerRegistry};
use rpr::error::{AuthoringError, ExternalFailure};
use rpr::markdown::document::{build, parse};
use rpr::markdown::github::{
    issue_address, scan, GitHubIssue, GitHubIssueDeclaration, GITHUB_LINK,
};
use rpr::markdown::mention::{extract_title, pending, resolve, Fetched, MentionCache};
use rpr::markdown::node::{Node, NodeValue};
use rpr::markdown::Element;

fn mention_chars(text: &str) -> Vec<char> {
    text.chars().collect()
}

fn issues_context(document: &str) -> Context {
    Context::new(document.to_string(), None, SpeakerRegistry::new())
}

fn page(title: &str) -> String {
    format!(
        "<html><body><div id=\"partial-discussion-header\"><h1><bdi>{}</bdi></h1></div>\
         <h1><bdi>not this</bdi></h1></body></html>",
        title
    )
}

/// Asks a tracker that knows the issues 42 and 7 about each identifier, and
/// counts the questions.
fn ask_all(ids: Vec<String>, cache: &mut MentionCache, asked: &mut Vec<String>) {
    for id in ids {
        asked.push(id.clone());
        let fetched = match id.as_str() {
            "42" => Fetched::Body(page("  The answer \n")),
            "7" => Fetched::Body(page("Seven")),
            _ => Fetched::NotFound,
        };
        cache.settle(&id, fetched).unwrap();
    }
}

#[test]
fn a_mention_runs_from_brace_and_hash_to_the_next_brace() {
    let src = mention_chars("{#42} and more");
    assert_eq!(scan(&src, 0, src.len()), Some(4));
    let src = mention_chars("see {#issue-9}.");
    assert_eq!(scan(&src, 4, src.len()), Some(13));
}

#[test]
fn a_mention_needs_hash_identifier_and_end() {
    for text in ["{#42", "{42}", "{#}", "#42}", "{ #42}", "{#", ""] {
        let src = mention_chars(text);
        assert_eq!(scan(&src, 0, src.len()), None, "{}", text);
    }
    let src = mention_chars("{#42} tail");
    assert_eq!(scan(&src, 0, 4), None);
}

#[test]
fn the_address_of_an_issue_is_the_tracker_and_its_identifier() {
    let declaration = GitHubIssueDeclaration::new(1, "42".to_string());
    assert_eq!(declaration.url(), format!("{}/issues/42", GITHUB_LINK));
    assert_eq!(declaration.url(), "https://github.com/marcuswhybrow/ray-peat-rodeo/issues/42");
    let issue = GitHubIssue { position: 1, id: "7".to_string(), title: "Seven".to_string() };
    assert_eq!(issue.url(), "https://github.com/marcuswhybrow/ray-peat-rodeo/issues/7");
    assert_eq!(issue.label(), "Issue #7. ");
    assert_eq!(issue_address("7"), "https://github.com/marcuswhybrow/ray-peat-rodeo/issues/7");
}

#[test]
fn the_title_is_read_from_the_header_of_the_page() {
    assert_eq!(extract_title(&page("  A title \n ")), Some("A title".to_string()));
    assert_eq!(
        extract_title(&page("Fish &amp; <i>chips</i>")),
        Some("Fish &amp; <i>chips</i>".to_string())
    );
}

#[test]
fn a_page_without_the_header_has_no_title() {
    assert_eq!(extract_title("<html><body><h1><bdi>Title</bdi></h1></body></html>"), None);
    assert_eq!(extract_title(""), None);
    assert_eq!(extract_title("A title"), None);
}

#[test]
fn the_cache_keeps_the_first_title() {
    let mut cache = MentionCache::new();
    assert_eq!(cache.get("42"), None);
    assert_eq!(cache.settle("42", Fetched::Body(page("First"))), Ok("First".to_string()));
    assert_eq!(cache.get("42"), Some(&"First".to_string()));
    assert_eq!(cache.settle("42", Fetched::Body(page("Second"))), Ok("First".to_string()));
    assert_eq!(cache.settle("42", Fetched::NotFound), Ok("First".to_string()));
    assert_eq!(cache.settle("42", Fetched::Failed), Ok("First".to_string()));
    assert_eq!(cache.get("42"), Some(&"First".to_string()));
    assert_eq!(cache.get("7"), None);
}

#[test]
fn each_failure_names_the_issue() {
    let mut cache = MentionCache::new();
    assert_eq!(
        cache.settle("42", Fetched::NotFound),
        Err(ExternalFailure::NotFound { id: "42".to_string() })
    );
    assert_eq!(
        cache.settle("42", Fetched::Failed),
        Err(ExternalFailure::Network { id: "42".to_string() })
    );
    assert_eq!(
        cache.settle("42", Fetched::Body("<html></html>".to_string())),
        Err(ExternalFailure::UnexpectedShape { id: "42".to_string() })
    );
    assert_eq!(cache.get("42"), None);
}

#[test]
fn an_issue_mentioned_twice_is_asked_about_once() {
    let mut cache = MentionCache::new();
    let mut asked: Vec<String> = Vec::new();

    let mut context = issues_context("one.md");
    let first = parse("See {#42} and {#7} and again {#42} here.", &mut context).unwrap();
    assert_eq!(pending(&first, &cache), vec!["42".to_string(), "7".to_string()]);
    ask_all(pending(&first, &cache), &mut cache, &mut asked);
    assert_eq!(pending(&first, &cache), Vec::<String>::new());

    let mut context = issues_context("two.md");
    let second = parse("Once more {#42} there.", &mut context).unwrap();
    assert_eq!(pending(&second, &cache), Vec::<String>::new());
    ask_all(pending(&second, &cache), &mut cache, &mut asked);

    assert_eq!(asked, vec!["42".to_string(), "7".to_string()]);
    assert_eq!(asked.iter().filter(|id| id.as_str() == "42").count(), 1);

    let resolved = resolve(&second, &cache, "two.md").unwrap();
    assert_eq!(
        Element::new(&resolved),
        Ok(Element::Root {
            children: vec![Element::Paragraph {
                children: vec![
                    Element::Text { content: "Once more ".to_string() },
                    Element::Mention {
                        position: 1,
                        id: "42".to_string(),
                        title: "The answer".to_string(),
                    },
                    Element::Text { content: " there.".to_string() },
                ]
            }]
        })
    );
}

#[test]
fn mentions_are_numbered_apart_from_sidenotes() {
    let mut cache = MentionCache::new();
    cache.settle("42", Fetched::Body(page("The answer"))).unwrap();
    cache.settle("7", Fetched::Body(page("Seven"))).unwrap();
    let mut context = issues_context("one.md");
    let output = build("{note} {#42} {other} {#7}", &mut context, &cache);
    assert_eq!(
        output,
        Ok(Element::Root {
            children: vec![Element::Paragraph {
                children: vec![
                    Element::Sidenote {
                        position: 1,
                        children: vec![Element::Text { content: "note".to_string() }],
                    },
                    Element::Text { content: " ".to_string() },
                    Element::Mention {
                        position: 1,
                        id: "42".to_string(),
                        title: "The answer".to_string(),
                    },
                    Element::Text { content: " ".to_string() },
                    Element::Sidenote {
                        position: 2,
                        children: vec![Element::Text { content: "other".to_string() }],
                    },
                    Element::Text { content: " ".to_string() },
                    Element::Mention {
                        position: 2,
                        id: "7".to_string(),
                        title: "Seven".to_string(),
                    },
                ]
            }]
        })
    );
    assert_eq!(context.mentions, 2);
    assert_eq!(context.sidenotes, 2);
}

#[test]
fn a_mention_without_a_title_fails_the_build() {
    let cache = MentionCache::new();
    let mut context = issues_context("one.md");
    assert_eq!(
        build("See {#42} here.", &mut context, &cache),
        Err(AuthoringError::UnresolvedMention {
            id: "42".to_string(),
            document: "one.md".to_string(),
        })
    );
}

#[test]
fn a_declaration_has_its_issue_once_the_cache_holds_the_title() {
    let mut cache = MentionCache::new();
    let declaration = GitHubIssueDeclaration::new(3, "42".to_string());
    assert_eq!(declaration.as_github_issue(&cache), None);
    cache.settle("42", Fetched::Body(page("The answer"))).unwrap();
    assert_eq!(
        declaration.as_github_issue(&cache),
        Some(GitHubIssue { position: 3, id: "42".to_string(), title: "The answer".to_string() })
    );
}

#[test]
fn resolving_stops_at_the_first_mention_without_a_title() {
    let mut cache = MentionCache::new();
    cache.settle("7", Fetched::Body(page("Seven"))).unwrap();
    let mut tree = Node::new(NodeValue::Paragraph);
    let mut inner = Node::new(NodeValue::MentionDeclaration(GitHubIssueDeclaration::new(
        1,
        "outer".to_string(),
    )));
    inner.children.push(Node::new(NodeValue::MentionDeclaration(GitHubIssueDeclaration::new(
        2,
        "inner".to_string(),
    ))));
    tree.children.push(Node::new(NodeValue::MentionDeclaration(GitHubIssueDeclaration::new(
        3,
        "7".to_string(),
    ))));
    tree.children.push(inner);
    assert_eq!(
        resolve(&tree, &cache, "doc.md"),
        Err(AuthoringError::UnresolvedMention {
            id: "inner".to_string(),
            document: "doc.md".to_string(),
        })
    );
    assert_eq!(pending(&tree, &cache), vec!["outer".to_string(), "inner".to_string()]);
}
