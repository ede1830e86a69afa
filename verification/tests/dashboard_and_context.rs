use zos_server::build_context::{
    expand_bash_context, expand_docker_context, expand_nix_context, expand_systemd_context, ContextExpander,
};
use zos_server::dashboard::{
    dashboard_routes, unread_count, AllTimeUsage, AllocationInfo, DailyUsage, MilestoneProgress, Notification,
    NotificationType, WeeklyUsage,
};

#[test]
fn expander_knows_seven_contexts() {
    let e = ContextExpander::new();
    assert_eq!(e.contexts, vec!["cargo", "bash", "nix", "docker", "systemd", "python", "powershell"]);
    assert_eq!(e.expand_to_context("nix", "anything"), "// Context expansion placeholder");
    expand_bash_context();
    expand_nix_context();
    expand_docker_context();
    expand_systemd_context();
}

#[test]
fn new_dashboard_parts() {
    let a = AllocationInfo::empty();
    assert!(a.current_port.is_none() && a.seat_assignment.is_none());
    assert_eq!(DailyUsage::zero().credits_spent, 0);
    assert_eq!(WeeklyUsage::zero().most_used_service, "None");
    assert_eq!(AllTimeUsage::zero().longest_streak, 0);
    let m = MilestoneProgress::bronze_tier();
    assert_eq!((m.milestone_name.as_str(), m.target, m.reward), ("Bronze Tier", 100, 100));
}

#[test]
fn unread_notifications_are_counted() {
    let mut list = vec![Notification::welcome(5), Notification::welcome(6)];
    assert_eq!(unread_count(&list), 2);
    list[0].read = true;
    assert_eq!(unread_count(&list), 1);
    assert_eq!(list[1].notification_type, NotificationType::SystemUpdate);
    assert_eq!(list[1].title, "Welcome to ZOS!");
    assert_eq!(list[1].action_url.as_deref(), Some("/verify"));
    assert_eq!(unread_count(&vec![]), 0);
}

#[test]
fn dashboard_route_list() {
    let r = dashboard_routes();
    assert!(r.starts_with("\n🎯 ZOS Dashboard API Endpoints:\n\nGET /dashboard/{user_id}\n  → Full dashboard JSON\n"));
    assert!(r.ends_with("WebSocket /dashboard/{user_id}/live\n  → Real-time dashboard updates\n"));
}

#[test]
fn dashboard_route_list_has_ten_endpoints() {
    let r = dashboard_routes();
    assert_eq!(r, dashboard_routes());
    let gets: Vec<&str> = r.lines().filter(|l| l.starts_with("GET /dashboard/{user_id}")).collect();
    assert_eq!(gets.len(), 8);
    for suffix in ["", "/quick", "/allocations", "/usage", "/rewards", "/competitive", "/marketplace", "/notifications"] {
        assert!(gets.contains(&format!("GET /dashboard/{{user_id}}{}", suffix).as_str()), "{}", suffix);
    }
    assert_eq!(r.lines().filter(|l| l.starts_with("POST /dashboard/{user_id}/notifications/{id}/read")).count(), 1);
    assert_eq!(r.lines().filter(|l| l.starts_with("WebSocket /dashboard/{user_id}/live")).count(), 1);
}
