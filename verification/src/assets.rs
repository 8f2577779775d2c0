//! The site's fixed assets: stylesheet, script, cache headers and robots file.
use vstd::prelude::*;

verus! {

/// The site's stylesheet.
pub const SITE_CSS: &'static str = r#"/* Film Finder - Static Site Styles */

:root {
    --bg-primary: #1a1a2e;
    --bg-secondary: #16213e;
    --bg-card: #1f2937;
    --bg-hover: #374151;
    --text-primary: #f3f4f6;
    --text-secondary: #9ca3af;
    --text-muted: #6b7280;
    --accent: #3b82f6;
    --accent-hover: #60a5fa;
    --border: #374151;
    --tag-bg: #4b5563;
    --tag-ov: #059669;
    --tag-3d: #7c3aed;
}

* {
    box-sizing: border-box;
    margin: 0;
    padding: 0;
}

html {
    font-size: 16px;
    scroll-behavior: smooth;
}

body {
    font-family: 'Inter', -apple-system, BlinkMacSystemFont, 'Segoe UI', Roboto, sans-serif;
    background-color: var(--bg-primary);
    color: var(--text-primary);
    line-height: 1.6;
    min-height: 100vh;
}

/* Header */
.site-header {
    text-align: center;
    padding: 2rem 1rem;
    background: linear-gradient(180deg, var(--bg-secondary) 0%, var(--bg-primary) 100%);
    border-bottom: 1px solid var(--border);
}

.site-header h1 {
    font-size: 2rem;
    font-weight: 600;
    letter-spacing: -0.02em;
    margin-bottom: 0.25rem;
}

.tagline {
    color: var(--text-secondary);
    font-size: 1rem;
}

/* Theater Filter */
.theater-filter {
    max-width: 1400px;
    margin: 0 auto;
    padding: 1rem;
}

.theater-filter details {
    background: var(--bg-card);
    border-radius: 0.5rem;
    border: 1px solid var(--border);
}

.theater-filter summary {
    padding: 1rem;
    cursor: pointer;
    font-weight: 500;
    user-select: none;
}

.theater-filter summary:hover {
    background: var(--bg-hover);
    border-radius: 0.5rem;
}

.theater-filter fieldset {
    border: none;
    padding: 0 1rem 1rem;
}

.theater-filter legend {
    color: var(--text-secondary);
    font-size: 0.875rem;
    margin-bottom: 0.5rem;
}

.theater-filter button {
    background: var(--bg-hover);
    color: var(--text-primary);
    border: 1px solid var(--border);
    padding: 0.5rem 1rem;
    border-radius: 0.25rem;
    cursor: pointer;
    font-size: 0.875rem;
    margin-right: 0.5rem;
    margin-bottom: 0.5rem;
    transition: background 0.15s;
}

.theater-filter button:hover {
    background: var(--accent);
}

/* Filter controls */
.filter-controls {
    margin-top: 1rem;
    display: flex;
    flex-wrap: wrap;
    gap: 1rem;
    align-items: center;
}

.search-box {
    flex: 1;
    min-width: 200px;
}

.search-box input {
    width: 100%;
    padding: 0.75rem 1rem;
    background: var(--bg-card);
    border: 1px solid var(--border);
    border-radius: 0.5rem;
    color: var(--text-primary);
    font-size: 0.875rem;
    font-family: inherit;
}

.search-box input:focus {
    outline: none;
    border-color: var(--accent);
}

.search-box input::placeholder {
    color: var(--text-muted);
}

.date-filter {
    display: flex;
    align-items: center;
    gap: 0.75rem;
    padding: 0.5rem 1rem;
    background: var(--bg-card);
    border-radius: 0.5rem;
    border: 1px solid var(--border);
}

.date-filter legend {
    position: absolute;
    width: 1px;
    height: 1px;
    padding: 0;
    margin: -1px;
    overflow: hidden;
    clip: rect(0, 0, 0, 0);
    white-space: nowrap;
    border: 0;
}

.date-filter label {
    display: flex;
    align-items: center;
    gap: 0.375rem;
    cursor: pointer;
    font-size: 0.875rem;
    padding: 0.25rem 0.5rem;
    border-radius: 0.25rem;
    transition: background 0.15s;
}

.date-filter label:hover {
    background: var(--bg-hover);
}

.date-filter input[type="checkbox"] {
    accent-color: var(--accent);
    width: 1rem;
    height: 1rem;
}

.show-all-toggle {
    display: flex;
    align-items: center;
    gap: 0.5rem;
    cursor: pointer;
    font-size: 0.875rem;
    padding: 0.75rem 1rem;
    background: var(--bg-card);
    border-radius: 0.5rem;
    border: 1px solid var(--border);
    white-space: nowrap;
}

.show-all-toggle input[type="checkbox"] {
    accent-color: var(--accent);
    width: 1rem;
    height: 1rem;
}

.theater-list {
    list-style: none;
    display: grid;
    grid-template-columns: repeat(auto-fill, minmax(280px, 1fr));
    gap: 1rem;
    margin-top: 1rem;
}

.theater-group {
    background: var(--bg-secondary);
    padding: 0.75rem;
    border-radius: 0.375rem;
}

.theater-group strong {
    display: block;
    margin-bottom: 0.5rem;
    color: var(--accent);
    font-size: 0.875rem;
    text-transform: uppercase;
    letter-spacing: 0.05em;
}

.theater-group ul {
    list-style: none;
}

.theater-group label {
    display: flex;
    align-items: center;
    gap: 0.5rem;
    padding: 0.25rem 0;
    font-size: 0.875rem;
    cursor: pointer;
}

.theater-group input[type="checkbox"] {
    accent-color: var(--accent);
}

/* Movie Grid */
.movie-grid {
    max-width: 1400px;
    margin: 0 auto;
    padding: 1rem;
    display: grid;
    grid-template-columns: repeat(auto-fill, minmax(300px, 1fr));
    gap: 1.5rem;
}

/* Movie Card */
.movie-card {
    background: var(--bg-card);
    border-radius: 0.5rem;
    overflow: hidden;
    border: 1px solid var(--border);
    transition: transform 0.2s, box-shadow 0.2s;
    cursor: pointer;
}

.movie-card:hover {
    transform: translateY(-2px);
    box-shadow: 0 8px 25px rgba(0, 0, 0, 0.3);
}

.movie-card.expanded {
    grid-column: 1 / -1;
    display: grid;
    grid-template-columns: 300px 1fr;
    grid-template-rows: auto 1fr;
    cursor: default;
}

.movie-card.hidden {
    display: none;
}

.movie-poster {
    aspect-ratio: 2/3;
    background: var(--bg-secondary);
    overflow: hidden;
}

.movie-card.expanded .movie-poster {
    grid-row: 1 / 3;
}

.movie-poster img {
    width: 100%;
    height: 100%;
    object-fit: cover;
}

.no-poster {
    display: flex;
    align-items: center;
    justify-content: center;
    width: 100%;
    height: 100%;
    font-size: 4rem;
    font-weight: 600;
    color: var(--text-muted);
    background: linear-gradient(135deg, var(--bg-secondary), var(--bg-hover));
}

.no-poster.sneak-preview {
    background: linear-gradient(135deg, #1a1a2e, #2d1b4e);
    color: #a78bfa;
}

.no-poster.sneak-preview svg {
    width: 60%;
    height: auto;
}

.no-poster.film-festival {
    background: linear-gradient(135deg, #1a2e1a, #2e4a1a);
    color: #86efac;
}

.no-poster.film-festival svg {
    width: 60%;
    height: auto;
}

.movie-header {
    padding: 1rem;
}

.movie-header h2 {
    font-size: 1.125rem;
    font-weight: 600;
    margin-bottom: 0.25rem;
    line-height: 1.3;
}

.movie-title-row {
    display: flex;
    align-items: baseline;
    gap: 0.5rem;
    flex-wrap: wrap;
}

.original-title,
.german-title {
    display: none;
    font-size: 0.875rem;
    color: var(--text-muted);
    font-style: italic;
    margin-bottom: 0.125rem;
}

.movie-card.expanded .original-title,
.movie-card.expanded .german-title {
    display: block;
}

.language-country {
    display: none;
    font-size: 0.8125rem;
    color: var(--text-secondary);
    margin-top: 0.5rem;
    margin-bottom: 0.25rem;
}

.movie-card.expanded .language-country {
    display: block;
}

.language-country .original-lang {
    font-weight: 500;
}

.language-country .separator {
    color: var(--text-muted);
}

.tmdb-link {
    display: none;
    align-items: center;
    color: var(--text-muted);
    transition: color 0.15s;
}

.movie-card.expanded .tmdb-link {
    display: inline-flex;
}

.tmdb-link:hover {
    color: var(--accent);
}

.external-icon {
    width: 0.875em;
    height: 0.875em;
    vertical-align: baseline;
}

.movie-meta {
    display: flex;
    flex-wrap: wrap;
    gap: 0.5rem;
    font-size: 0.8125rem;
    color: var(--text-secondary);
}

.movie-meta .genres {
    color: var(--accent);
}

.movie-meta .runtime::before {
    content: "·";
    margin-right: 0.5rem;
}

.movie-crew {
    padding: 0 1rem 0.5rem;
    font-size: 0.8125rem;
}

.movie-crew dt {
    color: var(--text-muted);
    font-weight: 500;
    margin-top: 0.25rem;
}

.movie-crew dt:first-child {
    margin-top: 0;
}

.movie-crew dd {
    color: var(--text-secondary);
    margin: 0;
}

.movie-crew dd a {
    color: var(--text-secondary);
    text-decoration: none;
    transition: color 0.15s;
}

.movie-crew dd a:hover {
    color: var(--accent);
    text-decoration: underline;
}

.movie-overview {
    padding: 0 1rem 1rem;
    font-size: 0.875rem;
    color: var(--text-secondary);
    line-height: 1.5;
}

/* Screenings */
.movie-screenings {
    padding: 1rem;
    border-top: 1px solid var(--border);
    max-height: 60vh;
    overflow-y: auto;
}

.movie-screenings h3 {
    font-size: 1rem;
    font-weight: 600;
    margin-bottom: 1rem;
    color: var(--accent);
}

.screening-day {
    margin-bottom: 1.5rem;
}

.screening-day:last-child {
    margin-bottom: 0;
}

.screening-day.hidden {
    display: none;
}

.screening-day h4 {
    font-size: 0.875rem;
    font-weight: 500;
    color: var(--text-secondary);
    margin-bottom: 0.5rem;
    padding-bottom: 0.25rem;
    border-bottom: 1px solid var(--border);
}

.screening-times {
    list-style: none;
}

.screening {
    display: grid;
    grid-template-columns: auto 1fr auto auto;
    gap: 0.75rem;
    align-items: center;
    padding: 0.5rem 0;
    font-size: 0.875rem;
    border-bottom: 1px solid var(--bg-hover);
}

.screening:last-child {
    border-bottom: none;
}

.screening.hidden {
    display: none;
}

.screening time {
    font-weight: 600;
    font-variant-numeric: tabular-nums;
    color: var(--text-primary);
}

.theater-name {
    color: var(--text-secondary);
    white-space: nowrap;
    overflow: hidden;
    text-overflow: ellipsis;
}

.theater-name a {
    color: var(--text-secondary);
    text-decoration: none;
    transition: color 0.15s;
}

.theater-name a:hover {
    color: var(--accent);
    text-decoration: underline;
}

.screening-tags {
    display: flex;
    gap: 0.25rem;
    font-size: 0.75rem;
    font-weight: 500;
    color: var(--text-primary);
    background: var(--tag-ov);
    padding: 0.125rem 0.375rem;
    border-radius: 0.25rem;
}

.screening a {
    color: var(--accent);
    text-decoration: none;
    font-weight: 500;
    font-size: 0.8125rem;
}

.screening a:hover {
    color: var(--accent-hover);
    text-decoration: underline;
}

/* Footer */
.site-footer {
    text-align: center;
    padding: 2rem 1rem;
    color: var(--text-muted);
    font-size: 0.8125rem;
    border-top: 1px solid var(--border);
    margin-top: 2rem;
}

.last-updated {
    margin-top: 0.5rem;
    font-size: 0.75rem;
    opacity: 0.7;
}

.site-footer a,
.site-footer a:visited {
    color: #6b7280;
}

.site-footer a:hover {
    color: #9ca3af;
}

/* Mobile adjustments */
@media (max-width: 768px) {
    .site-header h1 {
        font-size: 1.5rem;
    }

    .movie-grid {
        grid-template-columns: repeat(auto-fill, minmax(160px, 1fr));
        gap: 1rem;
    }

    .movie-card.expanded {
        grid-template-columns: 1fr;
    }

    .movie-card.expanded .movie-poster {
        grid-row: auto;
        max-height: 300px;
    }

    .movie-header h2 {
        font-size: 1rem;
    }

    .screening {
        display: flex;
        flex-wrap: wrap;
        align-items: center;
        gap: 0.25rem 0.5rem;
        padding: 0.5rem 0;
        font-size: 0.875rem;
        border-bottom: 1px solid var(--bg-hover);
    }

    .screening time {
        min-width: 3rem;
    }

    .theater-name {
        flex: 1;
        min-width: 0;
    }

    .screening-tags {
        width: auto;
    }

    .screening a {
        margin-left: auto;
    }

    .theater-list {
        grid-template-columns: 1fr;
    }
}

/* Scrollbar styling */
::-webkit-scrollbar {
    width: 8px;
    height: 8px;
}

::-webkit-scrollbar-track {
    background: var(--bg-primary);
}

::-webkit-scrollbar-thumb {
    background: var(--border);
    border-radius: 4px;
}

::-webkit-scrollbar-thumb:hover {
    background: var(--text-muted);
}
"#;

/// The site's client-side script: theater, date, language and text filters,
/// remembered preferences and card expansion.
pub const SITE_JS: &'static str = r#"// Film Finder - Interactive functionality

document.addEventListener('DOMContentLoaded', () => {
    const movieCards = document.querySelectorAll('.movie-card');
    const theaterCheckboxes = document.querySelectorAll('input[name="theater"]');
    const dateFilterCheckboxes = document.querySelectorAll('input[name="date-filter"]');
    const filterTodayCheckbox = document.getElementById('filter-today');
    const filterTomorrowCheckbox = document.getElementById('filter-tomorrow');
    const selectAllBtn = document.getElementById('select-all');
    const selectNoneBtn = document.getElementById('select-none');
    const showAllOvCheckbox = document.getElementById('show-all-ov');
    const searchInput = document.getElementById('search');

    const STORAGE_KEY = 'filmFinderPrefs';

    // Get date strings in YYYY-MM-DD format for Berlin timezone
    function getDateStrings() {
        const now = new Date();
        // Format for Berlin timezone
        const formatter = new Intl.DateTimeFormat('en-CA', {
            timeZone: 'Europe/Berlin',
            year: 'numeric',
            month: '2-digit',
            day: '2-digit'
        });
        const today = formatter.format(now);
        const tomorrow = formatter.format(new Date(now.getTime() + 24 * 60 * 60 * 1000));
        return { today, tomorrow };
    }

    // Check if localStorage is available (Safari private mode throws on access)
    function storageAvailable() {
        try {
            const test = '__storage_test__';
            localStorage.setItem(test, test);
            localStorage.removeItem(test);
            return true;
        } catch (e) {
            return false;
        }
    }

    const canUseStorage = storageAvailable();

    // Load saved preferences from localStorage
    function loadPreferences() {
        if (!canUseStorage) return null;
        try {
            const saved = localStorage.getItem(STORAGE_KEY);
            if (!saved) return null;
            return JSON.parse(saved);
        } catch (e) {
            return null;
        }
    }

    // Save preferences to localStorage (by theater name for stability across DB resets)
    function savePreferences() {
        if (!canUseStorage) return;
        const prefs = {
            selectedTheaters: Array.from(theaterCheckboxes)
                .filter(function(cb) { return cb.checked; })
                .map(function(cb) { return cb.dataset.name || cb.value; }),
            showAllOv: showAllOvCheckbox ? showAllOvCheckbox.checked : false
        };
        try {
            localStorage.setItem(STORAGE_KEY, JSON.stringify(prefs));
        } catch (e) {
            // Ignore storage errors
        }
    }

    // Apply saved preferences
    function applyPreferences() {
        const prefs = loadPreferences();
        if (!prefs) return;

        // Apply theater selections (match by name for stability)
        if (prefs.selectedTheaters && Array.isArray(prefs.selectedTheaters)) {
            const selected = new Set(prefs.selectedTheaters);
            theaterCheckboxes.forEach(function(cb) {
                var name = cb.dataset.name || cb.value;
                cb.checked = selected.has(name);
            });
        }

        // Apply show all OV setting
        if (showAllOvCheckbox && typeof prefs.showAllOv === 'boolean') {
            showAllOvCheckbox.checked = prefs.showAllOv;
        }
    }

    // Movie card expansion
    movieCards.forEach(card => {
        card.addEventListener('click', (e) => {
            // Don't collapse if clicking a link or input
            if (e.target.tagName === 'A' || e.target.tagName === 'INPUT') return;

            const isExpanded = card.classList.contains('expanded');

            // Collapse all other cards
            movieCards.forEach(c => {
                c.classList.remove('expanded');
                const screenings = c.querySelector('.movie-screenings');
                if (screenings) screenings.hidden = true;
            });

            // Toggle this card
            if (!isExpanded) {
                card.classList.add('expanded');
                const screenings = card.querySelector('.movie-screenings');
                if (screenings) {
                    screenings.hidden = false;
                    // Scroll the card into view
                    setTimeout(() => {
                        card.scrollIntoView({ behavior: 'smooth', block: 'start' });
                    }, 100);
                }
            }

            updateScreeningsVisibility();
        });
    });

    // Filter functionality (theaters + English/all OV + search + date)
    function updateMoviesVisibility() {
        const selectedTheaters = new Set(
            Array.from(theaterCheckboxes)
                .filter(cb => cb.checked)
                .map(cb => cb.value)
        );
        const showAllOv = showAllOvCheckbox?.checked || false;
        const searchQuery = (searchInput?.value || '').toLowerCase().trim();

        // Date filtering
        const filterToday = filterTodayCheckbox?.checked || false;
        const filterTomorrow = filterTomorrowCheckbox?.checked || false;
        const dateFilterActive = filterToday || filterTomorrow;
        const { today, tomorrow } = getDateStrings();
        const allowedDates = new Set();
        if (filterToday) allowedDates.add(today);
        if (filterTomorrow) allowedDates.add(tomorrow);

        movieCards.forEach(card => {
            const movieTheaters = card.dataset.theaters.split(',');
            const hasSelectedTheater = movieTheaters.some(t => selectedTheaters.has(t));
            const isEnglish = card.dataset.english === 'true';
            const searchText = card.dataset.search || '';

            // Check search match
            const matchesSearch = searchQuery === '' || searchText.includes(searchQuery);

            // Default is English only; if "Show all OV" is checked, show all
            const matchesLanguage = showAllOv || isEnglish;

            // Check date filter - if active, movie must have screenings on selected dates
            const movieDates = (card.dataset.dates || '').split(',').filter(d => d);
            const matchesDate = !dateFilterActive || movieDates.some(d => allowedDates.has(d));

            // Hide if no selected theater OR doesn't match language filter OR doesn't match search OR doesn't match date
            const shouldHide = !hasSelectedTheater || !matchesLanguage || !matchesSearch || !matchesDate;
            card.classList.toggle('hidden', shouldHide);
        });

        updateScreeningsVisibility();
    }

    function updateScreeningsVisibility() {
        const selectedTheaters = new Set(
            Array.from(theaterCheckboxes)
                .filter(cb => cb.checked)
                .map(cb => cb.value)
        );

        // Date filtering for screening days
        const filterToday = filterTodayCheckbox?.checked || false;
        const filterTomorrow = filterTomorrowCheckbox?.checked || false;
        const dateFilterActive = filterToday || filterTomorrow;
        const { today, tomorrow } = getDateStrings();
        const allowedDates = new Set();
        if (filterToday) allowedDates.add(today);
        if (filterTomorrow) allowedDates.add(tomorrow);

        // Filter individual screenings by theater
        document.querySelectorAll('.screening').forEach(screening => {
            const theaterId = screening.dataset.theater;
            screening.classList.toggle('hidden', !selectedTheaters.has(theaterId));
        });

        // Filter screening days by date
        document.querySelectorAll('.screening-day').forEach(day => {
            const dayDate = day.dataset.date;
            const matchesDate = !dateFilterActive || allowedDates.has(dayDate);
            day.classList.toggle('hidden', !matchesDate);
        });
    }

    theaterCheckboxes.forEach(cb => {
        cb.addEventListener('change', () => {
            updateMoviesVisibility();
            savePreferences();
        });
    });

    showAllOvCheckbox?.addEventListener('change', () => {
        updateMoviesVisibility();
        savePreferences();
    });

    // Date filter checkboxes
    dateFilterCheckboxes.forEach(cb => {
        cb.addEventListener('change', updateMoviesVisibility);
    });

    searchInput?.addEventListener('input', updateMoviesVisibility);

    selectAllBtn?.addEventListener('click', () => {
        theaterCheckboxes.forEach(cb => cb.checked = true);
        updateMoviesVisibility();
        savePreferences();
    });

    selectNoneBtn?.addEventListener('click', () => {
        theaterCheckboxes.forEach(cb => cb.checked = false);
        updateMoviesVisibility();
        savePreferences();
    });

    // Keyboard navigation
    document.addEventListener('keydown', (e) => {
        if (e.key === 'Escape') {
            // Clear search if focused
            if (document.activeElement === searchInput) {
                searchInput.value = '';
                updateMoviesVisibility();
                return;
            }
            // Otherwise collapse expanded cards
            movieCards.forEach(card => {
                card.classList.remove('expanded');
                const screenings = card.querySelector('.movie-screenings');
                if (screenings) screenings.hidden = true;
            });
        }
    });

    // Apply saved preferences and run initial filter
    applyPreferences();
    updateMoviesVisibility();
});
"#;

/// Cache-control rules for Cloudflare Pages.
pub const SITE_HEADERS: &'static str = r#"# Cloudflare Pages cache headers

# HTML should be revalidated frequently
/index.html
  Cache-Control: public, max-age=0, must-revalidate

# CSS and JS use cache-busting query strings, so can be cached longer
/*.css
  Cache-Control: public, max-age=31536000, immutable

/*.js
  Cache-Control: public, max-age=31536000, immutable

# Sitemap updates with each deploy
/sitemap.xml
  Cache-Control: public, max-age=3600, must-revalidate
  Content-Type: application/xml

# Robots is mostly static
/robots.txt
  Cache-Control: public, max-age=86400, must-revalidate
"#;

/// The robots file, pointing crawlers to the sitemap.
pub const ROBOTS_TXT: &'static str = "User-agent: *\nAllow: /\n\nSitemap: https://ovberlin.com/sitemap.xml\n";

/// The stylesheet written as `style.css`.
pub fn generate_css() -> (r: &'static str)
    ensures
        r@ == SITE_CSS@,
{
    SITE_CSS
}

/// The script written as `app.js`.
pub fn generate_js() -> (r: &'static str)
    ensures
        r@ == SITE_JS@,
{
    SITE_JS
}

/// The `_headers` file for Cloudflare Pages.
pub fn generate_headers() -> (r: &'static str)
    ensures
        r@ == SITE_HEADERS@,
{
    SITE_HEADERS
}

/// The `robots.txt` file.
pub fn generate_robots_txt() -> (r: &'static str)
    ensures
        r@ == ROBOTS_TXT@,
{
    ROBOTS_TXT
}

} // verus!
