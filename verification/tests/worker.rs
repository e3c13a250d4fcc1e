use autoencoder::bomb_task::{self, BombTask, TimeLimit};
use autoencoder::notifications::{Notification, NotificationData};

fn task(accepted: i64, days: i32, micros: i64) -> BombTask {
    BombTask {
        task_title: String::from("recycle"),
        time_accepted_micros: accepted,
        bomb_time_limit: Some(TimeLimit { months: 0, days, microseconds: micros }),
        assigned_username: String::from("pat"),
        assigned_email: String::from("pat@example.com"),
    }
}

fn note(email: &str, url: Option<&str>) -> Notification {
    Notification {
        id: 1,
        actor_object_id: String::from("7"),
        actor_content_type_id: 4,
        verb: String::from("liked your task"),
        recipient_id: 9,
        data: url.map(|u| NotificationData { url: Some(String::from(u)) }),
        recipient_username: String::from("pat"),
        recipient_email: String::from(email),
        actor_username: String::from("sam"),
    }
}

#[test]
fn time_left_adds_days_and_remainder() {
    let t = task(1_000, 1, 500);
    assert_eq!(t.time_left(2_000), 86_400_000_000 + 500 + 1_000 - 2_000);
}

#[test]
fn time_left_can_be_negative() {
    let t = task(0, 0, 100);
    assert_eq!(t.time_left(5_000), -4_900);
}

#[test]
fn warning_threshold_is_two_hours() {
    assert!(bomb_task::needs_warning(7_199_999_999));
    assert!(!bomb_task::needs_warning(7_200_000_000));
    assert!(bomb_task::needs_warning(-5));
}

#[test]
fn explosion_threshold_is_zero() {
    assert!(bomb_task::has_exploded(-1));
    assert!(!bomb_task::has_exploded(0));
    assert!(!bomb_task::has_exploded(50));
}

#[test]
fn warning_indices_pick_expiring_tasks_in_order() {
    let lefts = vec![10_000_000_000, 3_600_000_000, -20, 7_200_000_000, 0];
    assert_eq!(bomb_task::warning_indices(&lefts), vec![1, 2, 4]);
}

#[test]
fn exploded_indices_pick_negative_time_left() {
    let lefts = vec![10, -1, 0, -999];
    assert_eq!(bomb_task::exploded_indices(&lefts), vec![1, 3]);
}

#[test]
fn notifications_group_by_recipient_address() {
    let ns = vec![
        note("a@example.com", None),
        note("b@example.com", None),
        note("a@example.com", Some("/tasks/")),
    ];
    let a = String::from("a@example.com");
    let b = String::from("b@example.com");
    let c = String::from("c@example.com");
    assert_eq!(autoencoder::notifications::indices_with_email(&ns, &a), vec![0, 2]);
    assert_eq!(autoencoder::notifications::indices_with_email(&ns, &b), vec![1]);
    assert_eq!(autoencoder::notifications::indices_with_email(&ns, &c), Vec::<usize>::new());
}

#[test]
fn notification_link_uses_attached_url() {
    let n = note("a@example.com", Some("/tasks/"));
    assert_eq!(n.link(), String::from("https://www.sustainandgain.fun/tasks/"));
}

#[test]
fn notification_link_falls_back_without_data() {
    let n = note("a@example.com", None);
    assert_eq!(n.link(), String::from("https://sustainandgain.fun/"));
    let bare = Notification { data: Some(NotificationData { url: None }), ..note("a@example.com", None) };
    assert_eq!(bare.link(), String::from("https://sustainandgain.fun/"));
}

#[test]
fn notification_body_appends_fixed_tail() {
    let n = note("a@example.com", None);
    assert_eq!(
        n.body("Hello pat! You have new notifications."),
        String::from(
            "Hello pat! You have new notifications. You can view them at https://www.sustainandgain.fun/. Sustainability Steve"
        )
    );
}

#[test]
fn countdown_renders_each_positive_component() {
    // One day, one hour, one minute and one second: 90061 seconds.
    let tl: i64 = 90_061_000_000;
    assert_eq!(
        autoencoder::bomb_task::human_readable_time_left(tl),
        String::from("in 1 days 1 hours 1 minutes 1 seconds ")
    );
}

#[test]
fn countdown_skips_components_that_are_not_reached() {
    assert_eq!(
        autoencoder::bomb_task::human_readable_time_left(61_000_000),
        String::from("in 1 minutes 1 seconds ")
    );
    assert_eq!(
        autoencoder::bomb_task::human_readable_time_left(3_600_000_000),
        String::from("in 1 hours 0 minutes 0 seconds ")
    );
}

#[test]
fn countdown_is_now_at_or_below_a_second() {
    assert_eq!(
        autoencoder::bomb_task::human_readable_time_left(999_999),
        String::from("NOW")
    );
    assert_eq!(autoencoder::bomb_task::human_readable_time_left(0), String::from("NOW"));
    assert_eq!(autoencoder::bomb_task::human_readable_time_left(-5_000_000), String::from("NOW"));
}

#[test]
fn expiry_mail_counts_tasks() {
    assert_eq!(
        autoencoder::bomb_task::expiry_mail_body(12),
        String::from(
            "You have 12 task(s) that are expiring soon. You can view them at https://www.sustainandgain.fun/tasks/. Sustainability Steve"
        )
    );
}

#[test]
fn tasks_group_by_assigned_address() {
    let ts = vec![task(0, 0, 1), task(0, 0, 2), task(0, 0, 3)];
    let mut other = task(0, 0, 4);
    other.assigned_email = String::from("kim@example.com");
    let mut all = ts;
    all.push(other);
    let pat = String::from("pat@example.com");
    let kim = String::from("kim@example.com");
    assert_eq!(autoencoder::bomb_task::task_indices_with_email(&all, &pat), vec![0, 1, 2]);
    assert_eq!(autoencoder::bomb_task::task_indices_with_email(&all, &kim), vec![3]);
}

#[test]
fn intro_line_greets_by_username() {
    assert_eq!(
        autoencoder::notifications::intro_line("pat"),
        String::from("Hello pat! You have new notifications.")
    );
}

#[test]
fn decimal_rendering_is_plain() {
    assert_eq!(autoencoder::decimal::u64_to_string(0), String::from("0"));
    assert_eq!(autoencoder::decimal::u64_to_string(7), String::from("7"));
    assert_eq!(autoencoder::decimal::u64_to_string(90061), String::from("90061"));
    assert_eq!(
        autoencoder::decimal::u64_to_string(u64::MAX),
        String::from("18446744073709551615")
    );
}
