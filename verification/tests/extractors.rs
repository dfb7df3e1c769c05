use auditor::enums::{Framwork, LangType, ORM};
use auditor::model::{Config, SourceFile, Unauthorized, UnauthorizedRule};
use auditor::project::{GOProject, JAVAProject, PHPProject};
use auditor::xml::{parse_xml, XmlDoc, XmlEvent};
use auditor::PathUtil;

fn file(path: &str, content: &str) -> SourceFile {
    SourceFile { path: path.to_string(), content: content.to_string() }
}

#[test]
fn spring_class_prefix_joins_method_mapping() {
    let src = "@RequestMapping(\"/api\")\npublic class C {\n@GetMapping(\"/list\")\npublic void l() {}\n}\n";
    let files = vec![file("C.java", src)];
    let urls = JAVAProject::collection_spring(&files);
    assert_eq!(urls, vec!["/api/list".to_string()]);
}

#[test]
fn spring_method_equal_to_prefix_is_suppressed() {
    let src = "@RequestMapping(\"/api\")\nclass C {\n@RequestMapping(\"/api\")\nvoid base() {}\n@PostMapping(\"/save\")\nvoid s() {}\n}\n";
    let files = vec![file("C.java", src)];
    let urls = JAVAProject::collection_spring(&files);
    assert_eq!(urls, vec!["/api/save".to_string()]);
}

#[test]
fn spring_named_value_argument() {
    let src = "has @RequestMapping somewhere\n@RequestMapping(value = \"/users\", method = RequestMethod.GET)\n";
    let files = vec![file("C.java", src)];
    let urls = JAVAProject::collection_spring(&files);
    assert_eq!(urls, vec!["/users".to_string()]);
}

#[test]
fn spring_file_without_request_mapping_yields_nothing() {
    let src = "@GetMapping(\"/list\")\n";
    let files = vec![file("C.java", src)];
    let urls = JAVAProject::collection_spring(&files);
    assert!(urls.is_empty());
}

#[test]
fn struts_package_and_action() {
    let xml = "<struts>\n  <package name=\"foo\">\n    <action name=\"bar\" method=\"list\" class=\"x.Y\"/>\n  </package>\n</struts>\n";
    let files = vec![file("struts.xml", xml)];
    let urls = JAVAProject::collection_struts(&files);
    assert_eq!(urls, vec!["foo/bar!list.do".to_string()]);
}

#[test]
fn struts_action_without_method_is_skipped() {
    let xml = "<struts>\n<package name=\"foo\">\n<action name=\"bar\"/>\n<action name=\"ok\" method=\"go\"/>\n</package>\n</struts>";
    let files = vec![file("struts.xml", xml)];
    let urls = JAVAProject::collection_struts(&files);
    assert_eq!(urls, vec!["foo/ok!go.do".to_string()]);
}

#[test]
fn struts_file_without_marker_is_ignored() {
    let xml = "<other><package name=\"foo\"><action name=\"a\" method=\"b\"/></package></other>";
    let files = vec![file("o.xml", xml)];
    let urls = JAVAProject::collection_struts(&files);
    assert!(urls.is_empty());
}

#[test]
fn struts2_namespace_defaults_to_empty() {
    let xml = "<struts>\n<package name=\"p\" namespace=\"/ns\">\n<action name=\"a\" method=\"m\"/>\n</package>\n<package name=\"q\">\n<action method=\"go\"/>\n</package>\n</struts>";
    let files = vec![file("struts.xml", xml)];
    let urls = JAVAProject::collection_struts2(&files);
    assert_eq!(urls, vec!["/ns/a/m.action".to_string(), "//go.action".to_string()]);
}

#[test]
fn web_xml_servlet_mappings() {
    let xml = "<web-app>\n<servlet>\n<servlet-name>main</servlet-name>\n<servlet-class>com.x.Main</servlet-class>\n</servlet>\n<servlet-mapping>\n<servlet-name>main</servlet-name>\n<url-pattern>/main/*</url-pattern>\n</servlet-mapping>\n<servlet-mapping>\n<servlet-name>main</servlet-name>\n<url-pattern>/alt</url-pattern>\n</servlet-mapping>\n</web-app>";
    let doc = parse_xml(xml).unwrap();
    let urls = JAVAProject::collection_java_interface_doc(&doc);
    assert_eq!(urls, vec!["/main/*".to_string(), "/alt".to_string()]);
    let classes = JAVAProject::find_servlet_class_by_name(
        &doc,
        "servlet",
        "servlet-class",
        "servlet-name",
        "main",
    );
    assert_eq!(classes, vec!["com.x.Main".to_string()]);
}

#[test]
fn web_xml_filters_join_first_mapping() {
    let xml = "<web-app>\n<filter>\n<filter-name>auth</filter-name>\n<filter-class>com.x.Auth</filter-class>\n</filter>\n<filter-mapping>\n<filter-name>auth</filter-name>\n<url-pattern>/secure/*</url-pattern>\n</filter-mapping>\n</web-app>";
    let doc = parse_xml(xml).unwrap();
    let filters = JAVAProject::find_filters(&doc);
    assert_eq!(filters.len(), 1);
    assert_eq!(filters[0].name, "auth");
    assert_eq!(filters[0].class_name, "com.x.Auth");
    assert_eq!(filters[0].url_pattern, "/secure/*");
}

#[test]
fn malformed_xml_is_refused() {
    assert!(parse_xml("<open><unclosed></open>").is_none());
    assert!(parse_xml("not xml at all").is_none());
}

#[test]
fn jsp_paths_lose_the_project_prefix() {
    let paths = vec![
        "/work/proj/web/index.jsp".to_string(),
        "/work/proj/src/Main.java".to_string(),
        "/work/proj/web/admin/list.jsp".to_string(),
    ];
    let urls = JAVAProject::collection_jsp(paths, "/work/proj");
    assert_eq!(urls, vec!["/web/index.jsp".to_string(), "/web/admin/list.jsp".to_string()]);
}

#[test]
fn dependency_versions_resolve_through_properties() {
    let xml = "<project>\n<properties>\n<common.version>1.2.3</common.version>\n</properties>\n<dependencies>\n<dependency>\n<groupId>com.x</groupId>\n<artifactId>core</artifactId>\n<version>${common.version}</version>\n</dependency>\n<dependency>\n<groupId>com.y</groupId>\n<artifactId>util</artifactId>\n<version>2.0</version>\n</dependency>\n</dependencies>\n</project>";
    let doc = parse_xml(xml).unwrap();
    let deps = JAVAProject::collection_dependcy(&doc);
    assert_eq!(deps.len(), 2);
    assert_eq!(deps[0].group_id, "com.x");
    assert_eq!(deps[0].artifact_id, "core");
    assert_eq!(deps[0].version, "1.2.3");
    assert_eq!(deps[1].version, "2.0");
}

#[test]
fn mybatis_flags_placeholder_lines() {
    let xml_files = vec![
        file(
            "m.xml",
            "<mapper namespace=\"x\">\n<select id=\"q\">select * from t where id = ${id}</select>\n<select id=\"ok\">select * from t where id = #{id}</select>\n</mapper>",
        ),
        file("plain.xml", "<beans>${not a mapper}</beans>"),
    ];
    let findings = JAVAProject::analyze_mybatis_sql_injection(&xml_files);
    assert_eq!(findings.len(), 1);
    assert_eq!(findings[0].file_path, "m.xml");
    assert_eq!(findings[0].line_number, 2);
    assert!(findings[0].line.contains("${id}"));
}

#[test]
fn laravel_prefix_get_and_group_reset() {
    let src = "Route::prefix('admin')\nRoute::get('users')\nRoute::group(\nRoute::get('home')\n";
    let files = vec![file("routes.php", src)];
    let urls = PHPProject::collection_laravel_interface(&files);
    assert_eq!(urls, vec!["admin/users".to_string(), "/home".to_string()]);
}

#[test]
fn thinkphp_convention_pass() {
    let src = "<?php\nclass UserController extends Controller {\npublic function index(){}\npublic function __construct(){}\npublic function show(){}\n}\n";
    let files = vec![file("application/user/controller/UserController.php", src)];
    let urls = PHPProject::collection_thinkphp_interface(&files);
    assert!(urls.is_empty(), "the path lacks a directory above application/");
    let files2 = vec![file("/app/application/user/controller/UserController.php", src)];
    let urls2 = PHPProject::collection_thinkphp_interface(&files2);
    assert_eq!(urls2, vec!["/user/user/index".to_string(), "/user/user/show".to_string()]);
}

#[test]
fn thinkphp_route_pass_pushes_and_pops() {
    let src = "Route::get('a')\nRoute::post(\"b\")\n}\nRoute::any('c')\n";
    let files = vec![file("/x/route.php", src)];
    let urls = PHPProject::collection_thinkphp_interface(&files);
    assert_eq!(urls, vec!["a".to_string(), "c".to_string()]);
}

#[test]
fn thinkphp_prefix_group_pushes_its_prefix() {
    let src = "Route::prefix('admin') -> group( )\nRoute::get('list')\n";
    let files = vec![file("/x/route.php", src)];
    let urls = PHPProject::collection_thinkphp_interface(&files);
    assert_eq!(urls, vec!["admin".to_string(), "list".to_string()]);
}

#[test]
fn request_php_filter() {
    let files = vec![
        file("/a.php", "<?php echo $_GET['x'];"),
        file("/b.php", "<?php echo 'static';"),
        file("/c.php", "<?php $_REQUEST;"),
    ];
    let urls = PHPProject::collection_request_php(&files);
    assert_eq!(urls, vec!["/a.php".to_string(), "/c.php".to_string()]);
}

#[test]
fn go_router_registrations() {
    let src = "func main() {\nrouter.GET(\"/ping\", pingHandler)\nrouter.POST( \"/users\" , createUser)\nother.GET(\"/no\", x)\n}";
    let files = vec![file("main.go", src)];
    let urls = GOProject::collection_interface(&files);
    assert_eq!(urls, vec!["/ping".to_string(), "/users".to_string()]);
}

#[test]
fn go_registration_broken_after_the_comma_still_counts() {
    let src = "router.GET(\"/x\",\n    handler)\n";
    let files = vec![file("main.go", src)];
    let urls = GOProject::collection_interface(&files);
    assert_eq!(urls, vec!["/x".to_string()]);
}

#[test]
fn extraction_reruns_identically() {
    let files = vec![file(
        "/app/application/user/controller/UserController.php",
        "class UserController extends Controller {\npublic function index(){}\n}",
    )];
    let once = PHPProject::collection_thinkphp_interface(&files);
    let twice = PHPProject::collection_thinkphp_interface(&files);
    assert_eq!(once, twice);
    let go_files = vec![file("m.go", "router.GET(\"/a\", h)")];
    assert_eq!(
        GOProject::collection_interface(&go_files),
        GOProject::collection_interface(&go_files)
    );
}

#[test]
fn php_dispatch_respects_the_collect_flag() {
    let mk = |collect: bool| Config {
        project_name: "p".to_string(),
        lang_type: LangType::PHP,
        work_dir: "/x".to_string(),
        exclude_path: vec![],
        scan_ext: vec!["php".to_string()],
        collection_interface: collect,
        framework: Framwork::Laravel,
        orm: ORM::Unspecified,
        depency_file: String::new(),
        unauthorized: Unauthorized {
            prefix: String::new(),
            rule: UnauthorizedRule { status_code: vec![], response_body: vec![] },
            valid: false,
        },
        report_file_path: String::new(),
        use_ui: false,
        rule: vec![],
    };
    let files = vec![file("/x/r.php", "Route::get('a')\n echo $_GET['q'];")];
    let on = PHPProject::collection_interface(&mk(true), &files);
    assert_eq!(on, vec!["/a".to_string(), "/x/r.php".to_string()]);
    let off = PHPProject::collection_interface(&mk(false), &files);
    assert!(off.is_empty());
}

#[test]
fn java_dispatch_concatenates_sections() {
    let web_xml = "<web-app><servlet-mapping><servlet-name>s</servlet-name><url-pattern>/w</url-pattern></servlet-mapping></web-app>";
    let web_doc = Some(parse_xml(web_xml).unwrap());
    let struts = parse_xml(
        "<struts><package name=\"p\"><action name=\"a\" method=\"m\"/></package></struts>",
    )
    .unwrap();
    let sources = vec![file("/proj/x.jsp", "")];
    let urls = JAVAProject::collection_interface(
        &sources,
        &vec![struts],
        &web_doc,
        &Framwork::Struts,
        "/proj",
    );
    assert_eq!(
        urls,
        vec!["/w".to_string(), "p/a!m.do".to_string(), "/x.jsp".to_string()]
    );
}

#[test]
fn clear_prefix_strips_every_occurrence() {
    let cleaned = PathUtil::clear_prefix(
        vec!["/root/a/root/b".to_string(), "other".to_string()],
        "/root",
    );
    assert_eq!(cleaned, vec!["/a/b".to_string(), "other".to_string()]);
}

#[test]
fn laravel_later_prefix_replaces_the_earlier_one() {
    let src = "Route::prefix('a')\nRoute::prefix('b')\nRoute::get('x')\n";
    let files = vec![file("routes.php", src)];
    let urls = PHPProject::collection_laravel_interface(&files);
    assert_eq!(urls, vec!["b/x".to_string()]);
}

#[test]
fn web_xml_interface_collection_from_text() {
    let web_xml = file(
        "web.xml",
        "<web-app><servlet-mapping><servlet-name>s</servlet-name><url-pattern>/go</url-pattern></servlet-mapping></web-app>",
    );
    let urls = JAVAProject::collection_java_interface(&web_xml);
    assert_eq!(urls, vec!["/go".to_string()]);
    let bad = file("web.xml", "<web-app><broken></web-app>");
    assert!(JAVAProject::collection_java_interface(&bad).is_empty());
}

#[test]
fn from_events_builds_the_arena() {
    let events = vec![
        XmlEvent::Start { name: "a".to_string(), attrs: vec![], text: "t".to_string() },
        XmlEvent::Start {
            name: "b".to_string(),
            attrs: vec![("k".to_string(), "v".to_string())],
            text: String::new(),
        },
        XmlEvent::End,
        XmlEvent::End,
    ];
    let doc = XmlDoc::from_events(events).unwrap();
    assert_eq!(doc.nodes.len(), 2);
    assert_eq!(doc.nodes[0].name, "a");
    assert_eq!(doc.nodes[0].text, "t");
    assert_eq!(doc.nodes[0].parent, None);
    assert_eq!(doc.nodes[1].name, "b");
    assert_eq!(doc.nodes[1].parent, Some(0));
    let unbalanced = vec![
        XmlEvent::Start { name: "a".to_string(), attrs: vec![], text: String::new() },
    ];
    assert!(XmlDoc::from_events(unbalanced).is_none());
    let two_roots = vec![
        XmlEvent::Start { name: "a".to_string(), attrs: vec![], text: String::new() },
        XmlEvent::End,
        XmlEvent::Start { name: "b".to_string(), attrs: vec![], text: String::new() },
        XmlEvent::End,
    ];
    assert!(XmlDoc::from_events(two_roots).is_none());
}

#[test]
fn parse_attribute_order_is_stable_and_sorted() {
    // The parse pipeline promises one event stream per text; with sorted
    // attribute storage the pair order is the key order.
    let xml = "<struts><package name=\"p\" namespace=\"/n\"><action name=\"a\" method=\"m\" class=\"c.D\"/></package></struts>";
    let d1 = parse_xml(xml).unwrap();
    let d2 = parse_xml(xml).unwrap();
    assert_eq!(d1.nodes.len(), d2.nodes.len());
    for k in 0..d1.nodes.len() {
        assert_eq!(d1.nodes[k].attrs, d2.nodes[k].attrs);
    }
    let action = d1.nodes.iter().find(|n| n.name == "action").unwrap();
    let keys: Vec<String> = action.attrs.iter().map(|p| p.0.clone()).collect();
    assert_eq!(keys, vec!["class".to_string(), "method".to_string(), "name".to_string()]);
}
