use kanbus::models::{CustomField, CustomValue, IssueData, Timestamp};
use kanbus::snyk_issues::{
    build_snyk_key_index, file_task, find_file_task, parent_epic, refresh_epic_priority,
    refresh_file_task, repo_slug, report_line, set_text_field, short_key, snyk_epic,
    snyk_initiative,
};
use kanbus::snyk_mapping::{
    catalogued_problems, custom_fields, describe_code_finding, describe_package_finding,
    enrichment_lines, extract_classes, extract_source_location, map_snyk_to_kanbus,
    title_of_finding, vuln_key, vuln_title, ClassEntry, CoordinateRecord, LocationRecord,
    PointRecord, Problem, RegionRecord, SnykEnrichment, SnykFinding, SourceLocation,
};

const NOW: Timestamp = Timestamp { seconds: 1_770_000_000, nanos: 7 };

fn text(value: &str) -> Option<String> {
    Some(value.to_string())
}

fn package_finding() -> SnykFinding {
    SnykFinding {
        issue_type: text("package_vulnerability"),
        key: text("SNYK-JS-LODASH-1"),
        severity: text("high"),
        title: None,
        description: None,
        classes: Vec::new(),
        location: None,
        package_name: text("lodash"),
        package_version: text("4.17.0"),
        problems: vec![
            Problem { source: text("CWE"), id: text("CWE-400") },
            Problem { source: text("NVD"), id: text("CVE-2020-1") },
            Problem { source: text("NVD"), id: None },
            Problem { source: None, id: text("CVE-0") },
            Problem { source: text("NVD"), id: text("CVE-2020-2") },
        ],
        fixable: false,
        upgradeable: false,
        pinnable: false,
    }
}

fn code_finding() -> SnykFinding {
    SnykFinding {
        issue_type: text("code"),
        key: text("key-1"),
        severity: text("medium"),
        title: text("SQL Injection"),
        description: text("Unsanitized input flows into a query."),
        classes: vec![
            ClassEntry::Name("injection".to_string()),
            ClassEntry::Tagged { source: text("CWE"), id: text("89") },
            ClassEntry::Tagged { source: None, id: text("90") },
            ClassEntry::Tagged { source: text("CWE"), id: None },
        ],
        location: Some(SourceLocation {
            file: "src/db.py".to_string(),
            line: Some(3),
            column: Some(5),
            end_line: Some(4),
            end_column: Some(9),
        }),
        package_name: None,
        package_version: None,
        problems: Vec::new(),
        fixable: false,
        upgradeable: false,
        pinnable: false,
    }
}

fn enrichment() -> SnykEnrichment {
    SnykEnrichment {
        title: text("Prototype Pollution"),
        fixed_in: vec!["4.17.21".to_string(), "5.0.0".to_string()],
        cvss_score: text("7.5"),
        exploit_maturity: text("proof-of-concept"),
        priority_score: Some(640),
        description: text("Long story."),
    }
}

fn fields(custom: &[CustomField]) -> Vec<(String, String)> {
    custom
        .iter()
        .map(|field| {
            let value = match &field.value {
                CustomValue::Text(value) => format!("text:{value}"),
                CustomValue::Json(value) => format!("json:{value}"),
            };
            (field.key.clone(), value)
        })
        .collect()
}

fn pair(key: &str, value: &str) -> (String, String) {
    (key.to_string(), value.to_string())
}

#[test]
fn classes_are_named_by_text_or_by_source_and_identifier() {
    assert_eq!(extract_classes(&code_finding().classes), vec!["injection", "CWE-89"]);
    assert!(extract_classes(&Vec::new()).is_empty());
}

#[test]
fn only_problems_of_the_catalogue_are_listed() {
    assert_eq!(catalogued_problems(&package_finding().problems), vec!["CVE-2020-1", "CVE-2020-2"]);
}

#[test]
fn findings_are_listed_by_a_short_title() {
    assert_eq!(vuln_title(&package_finding()), "[Snyk] SNYK-JS-LODASH-1 in lodash");
    assert_eq!(vuln_title(&code_finding()), "[Snyk Code] SQL Injection");
    let mut bare = package_finding();
    bare.issue_type = None;
    bare.key = None;
    bare.package_name = None;
    assert_eq!(vuln_title(&bare), "[Snyk] unknown");
    assert_eq!(vuln_key(&bare), "");
    assert_eq!(vuln_key(&package_finding()), "SNYK-JS-LODASH-1");
    let mut untitled = code_finding();
    untitled.title = None;
    assert_eq!(vuln_title(&untitled), "[Snyk Code] Snyk Code issue");
}

#[test]
fn issue_titles_name_package_and_version() {
    assert_eq!(title_of_finding(&package_finding()), "[Snyk] SNYK-JS-LODASH-1 in lodash@4.17.0");
    let mut unpackaged = package_finding();
    unpackaged.package_name = text("");
    assert_eq!(title_of_finding(&unpackaged), "[Snyk] SNYK-JS-LODASH-1");
    assert_eq!(title_of_finding(&code_finding()), "[Snyk Code] SQL Injection");
    let mut untitled = code_finding();
    untitled.title = None;
    assert_eq!(title_of_finding(&untitled), "[Snyk Code] key-1");
}

#[test]
fn custom_fields_come_in_order_of_their_keys() {
    assert_eq!(
        fields(&custom_fields(&package_finding())),
        vec![
            pair("snyk_key", "text:SNYK-JS-LODASH-1"),
            pair("snyk_severity", "text:high"),
            pair("snyk_type", "text:package_vulnerability"),
        ]
    );
    assert_eq!(
        fields(&custom_fields(&code_finding())),
        vec![
            pair("snyk_column", "json:5"),
            pair("snyk_end_column", "json:9"),
            pair("snyk_end_line", "json:4"),
            pair("snyk_file", "text:src/db.py"),
            pair("snyk_key", "text:key-1"),
            pair("snyk_line", "json:3"),
            pair("snyk_severity", "text:medium"),
            pair("snyk_type", "text:code"),
        ]
    );
    let mut sparse = code_finding();
    sparse.severity = None;
    sparse.location =
        Some(SourceLocation { file: "a".to_string(), line: Some(-2), column: None, end_line: None, end_column: None });
    let listed = fields(&custom_fields(&sparse));
    assert_eq!(
        listed,
        vec![
            pair("snyk_file", "text:a"),
            pair("snyk_key", "text:key-1"),
            pair("snyk_line", "json:-2"),
            pair("snyk_severity", "text:low"),
            pair("snyk_type", "text:code"),
        ]
    );
    let mut sorted = listed.clone();
    sorted.sort();
    assert_eq!(listed, sorted);
}

#[test]
fn a_finding_in_code_is_described_with_its_place_and_lines() {
    let content = "line one\nline two\nquery(x)\nmore\nend\n";
    let expected = "## SQL Injection\n\n\
         **Severity:** medium\n\
         **Project:** `backend`\n\
         **File:** `src/db.py`\n\
         **Location:** line 3, column 5 to line 4, column 9\n\
         **Classes:** injection, CWE-89\n\
         ### Snippet (src/db.py:1-5)\n```\n   1 | line one\n   2 | line two\n   3 | query(x)\n   4 | more\n   5 | end\n```\n\n\
         **Issue Key:** key-1\n\n\
         ### Details\nUnsanitized input flows into a query.\n\n\
         **Fix:** Review and remediate in code.";
    assert_eq!(describe_code_finding(&code_finding(), "backend", Some(content)), expected);
}

#[test]
fn a_finding_in_code_without_details_is_described_in_short() {
    let mut bare = code_finding();
    bare.title = None;
    bare.description = None;
    bare.classes = Vec::new();
    bare.location = None;
    bare.severity = None;
    assert_eq!(
        describe_code_finding(&bare, "backend", Some("text")),
        "## key-1\n\n**Severity:** low\n**Project:** `backend`\n**Issue Key:** key-1\n\n\
         **Fix:** Review and remediate in code."
    );
    let mut placed = code_finding();
    placed.classes = Vec::new();
    placed.description = text("");
    placed.location = Some(SourceLocation {
        file: "f".to_string(),
        line: Some(2),
        column: Some(1),
        end_line: Some(3),
        end_column: None,
    });
    assert_eq!(
        describe_code_finding(&placed, "p", None),
        "## SQL Injection\n\n**Severity:** medium\n**Project:** `p`\n**File:** `f`\n\
         **Location:** line 2, column 1\n**Issue Key:** key-1\n\n\
         **Fix:** Review and remediate in code."
    );
    placed.location.as_mut().unwrap().column = None;
    assert!(describe_code_finding(&placed, "p", None).contains("**Location:** line 2\n"));
    placed.location.as_mut().unwrap().line = None;
    assert!(!describe_code_finding(&placed, "p", None).contains("**Location:**"));
}

#[test]
fn a_snippet_falls_back_on_the_first_line() {
    let mut odd = code_finding();
    odd.classes = Vec::new();
    odd.description = None;
    odd.location.as_mut().unwrap().end_line = Some(0);
    let described = describe_code_finding(&odd, "p", Some("a\nb\nc\nd\ne\nf\n"));
    assert!(described.contains("### Snippet (src/db.py:1-5)\n"));
    let unread = describe_code_finding(&odd, "p", None);
    assert!(!unread.contains("### Snippet"));
}

#[test]
fn a_finding_in_a_package_is_described_with_problems_and_advice() {
    let expected = "## Prototype Pollution\n\n\
         **Severity:** high\n\
         **Package:** lodash@4.17.0\n\
         **File:** `package.json`\n\n\
         **CVSS Score:** 7.5  \n**Exploit Maturity:** proof-of-concept  \n**Snyk Priority Score:** 640/1000\n\n\
         ### CVEs\n\
         - [CVE-2020-1](https://nvd.nist.gov/vuln/detail/CVE-2020-1)\n\
         - [CVE-2020-2](https://nvd.nist.gov/vuln/detail/CVE-2020-2)\n\n\
         **Fix:** Pin `lodash` to version 4.17.21, 5.0.0 or later.\n\n\
         ### Details\nLong story.\n\n\
         ### Reference\n- [Snyk advisory](https://security.snyk.io/vuln/SNYK-JS-LODASH-1)";
    assert_eq!(
        describe_package_finding(&package_finding(), Some(&enrichment()), "package.json"),
        expected
    );
}

#[test]
fn a_finding_without_enrichment_is_described_from_the_finding_alone() {
    let mut bare = package_finding();
    bare.problems = Vec::new();
    assert_eq!(
        describe_package_finding(&bare, None, "package.json"),
        "## SNYK-JS-LODASH-1\n\n**Severity:** high\n**Package:** lodash@4.17.0\n\
         **File:** `package.json`\n\n### CVEs\nNo CVE assigned.\n\n\
         **Fix:** No automatic fix available. Review manually.\n\n\
         ### Reference\n- [Snyk advisory](https://security.snyk.io/vuln/SNYK-JS-LODASH-1)"
    );
}

#[test]
fn the_advice_follows_what_can_be_done() {
    let advice = |finding: &SnykFinding, v1: Option<&SnykEnrichment>| {
        let described = describe_package_finding(finding, v1, "f");
        let start = described.find("**Fix:**").unwrap();
        let end = described[start..].find("\n\n").unwrap();
        described[start..start + end].to_string()
    };
    let mut finding = package_finding();
    let known = enrichment();
    finding.upgradeable = true;
    assert_eq!(
        advice(&finding, Some(&known)),
        "**Fix:** Upgrade `lodash` to version 4.17.21, 5.0.0 or later."
    );
    assert_eq!(advice(&finding, None), "**Fix:** Upgrade `lodash` to a patched version.");
    finding.upgradeable = false;
    finding.pinnable = true;
    finding.fixable = true;
    assert_eq!(advice(&finding, None), "**Fix:** Pin `lodash` to a patched version.");
    finding.pinnable = false;
    assert_eq!(advice(&finding, None), "**Fix:** Snyk fix available — run `snyk fix`.");
    let mut unfixed = enrichment();
    unfixed.fixed_in = Vec::new();
    assert_eq!(advice(&finding, Some(&unfixed)), "**Fix:** Snyk fix available — run `snyk fix`.");
}

#[test]
fn enrichment_lines_leave_out_what_is_not_known() {
    assert!(enrichment_lines(None).is_empty());
    let mut known = enrichment();
    assert_eq!(
        enrichment_lines(Some(&known)),
        vec![
            "**CVSS Score:** 7.5",
            "**Exploit Maturity:** proof-of-concept",
            "**Snyk Priority Score:** 640/1000"
        ]
    );
    known.exploit_maturity = text("no-known-exploit");
    known.cvss_score = text("");
    known.priority_score = Some(-1);
    assert_eq!(enrichment_lines(Some(&known)), vec!["**Snyk Priority Score:** -1/1000"]);
    known.exploit_maturity = None;
    known.cvss_score = None;
    known.priority_score = None;
    assert!(enrichment_lines(Some(&known)).is_empty());
}

#[test]
fn a_finding_becomes_an_open_sub_task() {
    let parent = text("tsk-task");
    let issue =
        map_snyk_to_kanbus(&package_finding(), &parent, Some(&enrichment()), "package.json", None, NOW);
    assert_eq!(issue.identifier, "");
    assert_eq!(issue.title, "[Snyk] SNYK-JS-LODASH-1 in lodash@4.17.0");
    assert_eq!(
        issue.description,
        describe_package_finding(&package_finding(), Some(&enrichment()), "package.json")
    );
    assert_eq!(issue.issue_type, "sub-task");
    assert_eq!(issue.status, "open");
    assert_eq!(issue.priority, 1);
    assert_eq!(issue.parent, parent);
    assert_eq!(issue.labels, vec!["security", "snyk"]);
    assert_eq!(issue.created_at, NOW);
    assert_eq!(issue.updated_at, NOW);
    assert_eq!(issue.closed_at, None);
    assert!(issue.dependencies.is_empty() && issue.comments.is_empty());
    assert_eq!(fields(&issue.custom).len(), 3);
    let code = map_snyk_to_kanbus(&code_finding(), &None, None, "backend", Some("a\n"), NOW);
    assert_eq!(code.priority, 2);
    assert_eq!(code.parent, None);
    assert_eq!(code.description, describe_code_finding(&code_finding(), "backend", Some("a\n")));
    assert_eq!(fields(&code.custom).len(), 8);
}

fn check_template(
    issue: &IssueData,
    identifier: &str,
    title: &str,
    issue_type: &str,
    priority: i32,
    parent: Option<&str>,
) {
    assert_eq!(issue.identifier, identifier);
    assert_eq!(issue.title, title);
    assert_eq!(issue.issue_type, issue_type);
    assert_eq!(issue.status, "open");
    assert_eq!(issue.priority, priority);
    assert_eq!(issue.parent.as_deref(), parent);
    assert_eq!(issue.assignee, None);
    assert_eq!(issue.creator, None);
    assert_eq!(issue.created_at, NOW);
    assert_eq!(issue.updated_at, NOW);
    assert_eq!(issue.closed_at, None);
    assert!(issue.dependencies.is_empty() && issue.comments.is_empty());
}

#[test]
fn the_issues_of_the_feed_are_made_from_templates() {
    let epic = parent_epic("tsk-e", NOW);
    check_template(&epic, "tsk-e", "Snyk Vulnerabilities", "epic", 1, None);
    assert_eq!(epic.description, "Security vulnerabilities imported from Snyk.");
    assert_eq!(epic.labels, vec!["security", "snyk"]);
    assert!(epic.custom.is_empty());

    let initiative = snyk_initiative("tsk-i", NOW);
    check_template(&initiative, "tsk-i", "Snyk Vulnerability Remediation", "initiative", 1, None);
    assert_eq!(initiative.description, "Track remediation of Snyk vulnerabilities.");
    assert_eq!(initiative.labels, vec!["security", "snyk"]);

    let category = snyk_epic("tsk-c", "Snyk Code Vulnerabilities", "code", 3, "tsk-i", NOW);
    check_template(&category, "tsk-c", "Snyk Code Vulnerabilities", "epic", 3, Some("tsk-i"));
    assert_eq!(category.labels, vec!["security", "snyk", "code"]);
    assert_eq!(fields(&category.custom), vec![pair("snyk_category", "text:code")]);

    let task = file_task("tsk-t", "api/package.json", "dependency", 2, "tsk-c", NOW);
    check_template(&task, "tsk-t", "api/package.json", "task", 2, Some("tsk-c"));
    assert_eq!(task.description, "Snyk vulnerabilities found in `api/package.json`.");
    assert_eq!(task.labels, vec!["security", "snyk"]);
    assert_eq!(
        fields(&task.custom),
        vec![
            pair("snyk_category", "text:dependency"),
            pair("snyk_target_file", "text:api/package.json")
        ]
    );
}

#[test]
fn a_task_that_is_up_to_date_stays_as_it_is() {
    let earlier = Timestamp { seconds: 1, nanos: 0 };
    let task = file_task("tsk-t", "f", "dependency", 2, "tsk-c", earlier);
    let (same, changed) = refresh_file_task(task, "tsk-c", 2, "f", "dependency", NOW);
    assert!(!changed);
    assert_eq!(same.updated_at, earlier);
    let mut bug = file_task("tsk-b", "f", "dependency", 2, "tsk-c", earlier);
    bug.issue_type = "bug".to_string();
    let (same, changed) = refresh_file_task(bug, "tsk-other", 0, "g", "code", NOW);
    assert!(!changed);
    assert_eq!(same.parent.as_deref(), Some("tsk-c"));
    assert_eq!(same.priority, 2);
}

#[test]
fn a_task_that_has_fallen_behind_is_brought_up_to_date() {
    let earlier = Timestamp { seconds: 1, nanos: 0 };
    let mut task = file_task("tsk-t", "f", "dependency", 2, "tsk-old", earlier);
    task.labels = vec!["mine".to_string(), "security".to_string()];
    task.custom = vec![
        CustomField { key: "other".to_string(), value: CustomValue::Text("kept".to_string()) },
        CustomField { key: "snyk_category".to_string(), value: CustomValue::Json("1".to_string()) },
    ];
    let (updated, changed) = refresh_file_task(task, "tsk-c", 1, "f", "code", NOW);
    assert!(changed);
    assert_eq!(updated.parent.as_deref(), Some("tsk-c"));
    assert_eq!(updated.priority, 1);
    assert_eq!(updated.labels, vec!["mine", "security", "snyk"]);
    assert_eq!(
        fields(&updated.custom),
        vec![
            pair("other", "text:kept"),
            pair("snyk_category", "text:code"),
            pair("snyk_target_file", "text:f")
        ]
    );
    assert_eq!(updated.updated_at, NOW);
    assert_eq!(updated.created_at, earlier);
    assert_eq!(updated.title, "f");
    for (epic, priority, file, category) in
        [("x", 1, "f", "code"), ("tsk-c", 9, "f", "code"), ("tsk-c", 1, "g", "code"), ("tsk-c", 1, "f", "d")]
    {
        let (_, changed) = refresh_file_task(updated.clone(), epic, priority, file, category, NOW);
        assert!(changed);
    }
    let (_, changed) = refresh_file_task(updated.clone(), "tsk-c", 1, "f", "code", NOW);
    assert!(!changed);
}

#[test]
fn a_text_field_is_replaced_in_place_or_added_behind() {
    let mut custom = vec![
        CustomField { key: "a".to_string(), value: CustomValue::Text("1".to_string()) },
        CustomField { key: "b".to_string(), value: CustomValue::Json("2".to_string()) },
        CustomField { key: "b".to_string(), value: CustomValue::Text("3".to_string()) },
    ];
    set_text_field(&mut custom, "b", "new");
    assert_eq!(fields(&custom), vec![pair("a", "text:1"), pair("b", "text:new"), pair("b", "text:3")]);
    set_text_field(&mut custom, "c", "last");
    assert_eq!(fields(&custom).last(), Some(&pair("c", "text:last")));
    assert_eq!(custom.len(), 4);
}

#[test]
fn an_epic_takes_the_priority_asked_for() {
    let earlier = Timestamp { seconds: 1, nanos: 0 };
    let epic = snyk_epic("tsk-c", "T", "code", 3, "tsk-i", earlier);
    let (same, changed) = refresh_epic_priority(epic.clone(), 3, NOW);
    assert!(!changed);
    assert_eq!(same.updated_at, earlier);
    let (updated, changed) = refresh_epic_priority(epic, 1, NOW);
    assert!(changed);
    assert_eq!(updated.priority, 1);
    assert_eq!(updated.updated_at, NOW);
}

#[test]
fn the_repository_is_read_off_the_remote_address() {
    assert_eq!(repo_slug("https://github.com/Org/Repo.git\n"), text("Org/Repo"));
    assert_eq!(repo_slug("git@github.com:Org/Repo.git"), text("Org/Repo"));
    assert_eq!(repo_slug("  https://github.com/Org/Repo  "), text("Org/Repo"));
    assert_eq!(repo_slug("https://github.com/Org/Repo.git.git"), text("Org/Repo"));
    assert_eq!(repo_slug("https://github.com/.git"), text(""));
    assert_eq!(repo_slug("https://github.com/"), text(""));
    assert_eq!(repo_slug("https://gitlab.com/Org/Repo.git"), None);
    assert_eq!(repo_slug("ssh://git@github.com/Org/Repo.git"), None);
    assert_eq!(repo_slug(""), None);
    for address in ["https://github.com/a.gitx", "git@github.com:.git.git.git", "git@github.com:git"] {
        let url = address.trim();
        let expected = url
            .strip_prefix("https://github.com/")
            .or_else(|| url.strip_prefix("git@github.com:"))
            .map(|rest| rest.trim_end_matches(".git").to_string());
        assert_eq!(repo_slug(address), expected);
    }
}

#[test]
fn reports_show_a_short_key_in_a_column() {
    assert_eq!(short_key("kanbus-abcdef1234"), "kanbus-abcdef");
    assert_eq!(short_key("kanbus-abc"), "kanbus-abc");
    assert_eq!(short_key("abcdefghij"), "abcdef");
    assert_eq!(short_key("abc"), "abc");
    assert_eq!(short_key("-abcdefghij"), "-abcdef");
    assert_eq!(short_key(""), "");
    for id in ["kanbus-abcdef1234", "a-b-c-d-e-f-g-h", "nohyphenhere", "x-", "-"] {
        let expected = &id[..id.len().min(id.find('-').map_or(6, |i| i + 7))];
        assert_eq!(short_key(id), expected);
    }
    assert_eq!(
        report_line("created", "epic", "tsk-abcdef", "Snyk Vulnerabilities"),
        format!("created  [epic    ]  {:<14}  \"Snyk Vulnerabilities\"", "tsk-abcdef")
    );
    assert_eq!(
        report_line("created", "initiative", "tsk-1", "T"),
        format!("created  [initiative]  {:<14}  \"T\"", "tsk-1")
    );
    assert_eq!(
        report_line("updated", "task", "a-very-long-key-indeed", "api/package.json"),
        format!("updated  [task    ]  {:<14}  \"api/package.json\"", "a-very-long-key-indeed")
    );
}

#[test]
fn findings_are_found_again_by_their_key() {
    let first = map_snyk_to_kanbus(&package_finding(), &None, None, "f", None, NOW);
    let mut one = first.clone();
    one.identifier = "tsk-1".to_string();
    let mut two = first.clone();
    two.identifier = "tsk-2".to_string();
    let mut code = map_snyk_to_kanbus(&code_finding(), &None, None, "f", None, NOW);
    code.identifier = "tsk-3".to_string();
    let mut numbered = first.clone();
    numbered.identifier = "tsk-4".to_string();
    numbered.custom =
        vec![CustomField { key: "snyk_key".to_string(), value: CustomValue::Json("7".to_string()) }];
    let plain = file_task("tsk-5", "f", "code", 1, "tsk-e", NOW);
    let index = build_snyk_key_index(&vec![one, code, two, numbered, plain]);
    assert_eq!(index.len(), 2);
    assert_eq!(index.get("SNYK-JS-LODASH-1"), Some(&"tsk-2".to_string()));
    assert_eq!(index.get("key-1"), Some(&"tsk-3".to_string()));
    assert_eq!(index.get("7"), None);
    assert_eq!(build_snyk_key_index(&Vec::new()).len(), 0);
}

#[test]
fn the_task_of_a_file_is_found_by_category_and_file() {
    let mut uncategorized = file_task("tsk-3", "g", "code", 1, "tsk-e", NOW);
    uncategorized.custom.remove(0);
    let mut epic = file_task("tsk-4", "f", "code", 1, "tsk-e", NOW);
    epic.issue_type = "epic".to_string();
    let issues = vec![
        file_task("tsk-1", "f", "code", 1, "tsk-e", NOW),
        file_task("tsk-2", "f", "code", 1, "tsk-e", NOW),
        uncategorized,
        epic,
        file_task("tsk-5", "f", "dependency", 1, "tsk-e", NOW),
    ];
    assert_eq!(find_file_task(&issues, "code", "f"), Some("tsk-2".to_string()));
    assert_eq!(find_file_task(&issues, "dependency", "f"), Some("tsk-5".to_string()));
    assert_eq!(find_file_task(&issues, "dependency", "g"), Some("tsk-3".to_string()));
    assert_eq!(find_file_task(&issues, "code", "g"), None);
    assert_eq!(find_file_task(&issues, "code", "h"), None);
    assert_eq!(find_file_task(&Vec::new(), "code", "f"), None);
}

fn place(found: Option<SourceLocation>) -> Option<(String, Option<i64>, Option<i64>, Option<i64>, Option<i64>)> {
    found.map(|l| (l.file, l.line, l.column, l.end_line, l.end_column))
}

fn located(file: Option<&str>, region: Option<RegionRecord>, line: Option<i64>, column: Option<i64>) -> CoordinateRecord {
    CoordinateRecord {
        first: Some(Some(Some(LocationRecord { file: file.map(str::to_string), region, line, column }))),
    }
}

#[test]
fn the_place_of_a_finding_is_read_off_its_first_coordinate_that_says_anything() {
    let point = |line, column| PointRecord { line, column };
    let region = RegionRecord {
        start: Some(point(Some(3), Some(1))),
        end: Some(point(Some(4), None)),
        own: point(Some(9), Some(9)),
    };
    assert_eq!(
        place(extract_source_location(&vec![located(Some("a.py"), Some(region), Some(7), Some(7))])),
        Some(("a.py".to_string(), Some(3), Some(1), Some(4), None))
    );
    let own = RegionRecord { start: None, end: None, own: point(Some(9), Some(2)) };
    assert_eq!(
        place(extract_source_location(&vec![located(Some("a.py"), Some(own), None, None)])),
        Some(("a.py".to_string(), Some(9), Some(2), Some(9), Some(2)))
    );
    assert_eq!(
        place(extract_source_location(&vec![located(Some("a.py"), None, Some(5), Some(6))])),
        Some(("a.py".to_string(), Some(5), Some(6), None, None))
    );
    let empty = || CoordinateRecord { first: Some(None) };
    assert_eq!(
        place(extract_source_location(&vec![empty(), empty(), located(Some("b"), None, None, None)])),
        Some(("b".to_string(), None, None, None, None))
    );
    assert_eq!(place(extract_source_location(&vec![empty(), empty()])), None);
    assert_eq!(place(extract_source_location(&Vec::new())), None);
}

#[test]
fn the_search_for_a_place_ends_where_a_coordinate_is_malformed() {
    let good = || located(Some("a.py"), None, Some(1), None);
    let no_list = CoordinateRecord { first: None };
    assert_eq!(place(extract_source_location(&vec![no_list, good()])), None);
    let no_place = CoordinateRecord { first: Some(Some(None)) };
    assert_eq!(place(extract_source_location(&vec![no_place, good()])), None);
    assert_eq!(place(extract_source_location(&vec![located(None, None, Some(1), None), good()])), None);
}
